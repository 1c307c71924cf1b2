//! Forms: their questions, expressions and cross-field rules.
use crate::json::{self, Json, JsonView};
use crate::text::{self, copy_opt, copy_texts};
use vstd::prelude::*;

verus! {

/// What kind of answer a question takes.
#[derive(Debug, Clone, Copy, PartialEq, Eq, Structural)]
pub enum QuestionType {
    String,
    Boolean,
    Integer,
    Number,
    Enum,
    List,
}

/// A numeric limit: a double by its bit pattern, and the text that shows it.
#[derive(Debug, PartialEq)]
pub struct Bound {
    pub bits: u64,
    pub text: String,
}

/// Limits on an answer.
#[derive(Debug, PartialEq)]
pub struct Constraint {
    pub pattern: Option<String>,
    pub min: Option<Bound>,
    pub max: Option<Bound>,
    pub min_len: Option<usize>,
    pub max_len: Option<usize>,
}

/// A condition or computed value over the answers.
#[derive(Debug, PartialEq)]
pub enum Expr {
    Literal { value: Json },
    Answer { path: String },
    IsSet { path: String },
    And { expressions: Vec<Expr> },
    Or { expressions: Vec<Expr> },
    Not { expression: Box<Expr> },
    Eq { left: Box<Expr>, right: Box<Expr> },
    Ne { left: Box<Expr>, right: Box<Expr> },
    Lt { left: Box<Expr>, right: Box<Expr> },
    Lte { left: Box<Expr>, right: Box<Expr> },
    Gt { left: Box<Expr>, right: Box<Expr> },
    Gte { left: Box<Expr>, right: Box<Expr> },
}

/// The shape of the entries of a list question.
#[derive(Debug, PartialEq)]
pub struct ListSpec {
    pub min_items: Option<usize>,
    pub max_items: Option<usize>,
    pub fields: Vec<QuestionSpec>,
}

/// A question of a form. `title_i18n` and `description_i18n` are translation keys.
#[derive(Debug, PartialEq)]
pub struct QuestionSpec {
    pub id: String,
    pub kind: QuestionType,
    pub title: String,
    pub title_i18n: Option<String>,
    pub description: Option<String>,
    pub description_i18n: Option<String>,
    pub required: bool,
    pub choices: Option<Vec<String>>,
    pub default_value: Option<String>,
    pub secret: bool,
    pub visible_if: Option<Expr>,
    pub constraint: Option<Constraint>,
    pub list: Option<ListSpec>,
    pub computed: Option<Expr>,
    pub computed_overridable: bool,
}

/// A rule over several fields, which is broken where its condition holds.
#[derive(Debug, PartialEq)]
pub struct CrossFieldValidation {
    pub id: Option<String>,
    pub message: String,
    pub fields: Vec<String>,
    pub condition: Expr,
    pub code: Option<String>,
}

/// How a form is introduced.
#[derive(Debug, PartialEq)]
pub struct FormPresentation {
    pub intro: Option<String>,
    pub theme: Option<String>,
    pub default_locale: Option<String>,
}

/// How progress through a form is counted.
#[derive(Debug, Clone, Copy, PartialEq, Eq, Structural)]
pub struct ProgressPolicy {
    pub skip_answered: bool,
    pub autofill_defaults: bool,
    pub treat_default_as_answered: bool,
}

/// A form. Store operations, the secrets policy and inclusions are kept as JSON.
#[derive(Debug, PartialEq)]
pub struct FormSpec {
    pub id: String,
    pub title: String,
    pub version: String,
    pub description: Option<String>,
    pub presentation: Option<FormPresentation>,
    pub progress_policy: Option<ProgressPolicy>,
    pub secrets_policy: Option<Json>,
    pub store: Vec<Json>,
    pub validations: Vec<CrossFieldValidation>,
    pub includes: Vec<Json>,
    pub questions: Vec<QuestionSpec>,
}

#[verifier::ext_equal]
pub struct BoundView {
    pub bits: u64,
    pub text: Seq<char>,
}

#[verifier::ext_equal]
pub struct ConstraintView {
    pub pattern: Option<Seq<char>>,
    pub min: Option<BoundView>,
    pub max: Option<BoundView>,
    pub min_len: Option<usize>,
    pub max_len: Option<usize>,
}

#[verifier::ext_equal]
pub enum ExprView {
    Literal { value: JsonView },
    Answer { path: Seq<char> },
    IsSet { path: Seq<char> },
    And { expressions: Seq<ExprView> },
    Or { expressions: Seq<ExprView> },
    Not { expression: Box<ExprView> },
    Eq { left: Box<ExprView>, right: Box<ExprView> },
    Ne { left: Box<ExprView>, right: Box<ExprView> },
    Lt { left: Box<ExprView>, right: Box<ExprView> },
    Lte { left: Box<ExprView>, right: Box<ExprView> },
    Gt { left: Box<ExprView>, right: Box<ExprView> },
    Gte { left: Box<ExprView>, right: Box<ExprView> },
}

#[verifier::ext_equal]
pub struct ListView {
    pub min_items: Option<usize>,
    pub max_items: Option<usize>,
    pub fields: Seq<QuestionView>,
}

#[verifier::ext_equal]
pub struct QuestionView {
    pub id: Seq<char>,
    pub kind: QuestionType,
    pub title: Seq<char>,
    pub title_i18n: Option<Seq<char>>,
    pub description: Option<Seq<char>>,
    pub description_i18n: Option<Seq<char>>,
    pub required: bool,
    pub choices: Option<Seq<Seq<char>>>,
    pub default_value: Option<Seq<char>>,
    pub secret: bool,
    pub visible_if: Option<ExprView>,
    pub constraint: Option<ConstraintView>,
    pub list: Option<ListView>,
    pub computed: Option<ExprView>,
    pub computed_overridable: bool,
}

#[verifier::ext_equal]
pub struct RuleView {
    pub id: Option<Seq<char>>,
    pub message: Seq<char>,
    pub fields: Seq<Seq<char>>,
    pub condition: ExprView,
    pub code: Option<Seq<char>>,
}

#[verifier::ext_equal]
pub struct PresentationView {
    pub intro: Option<Seq<char>>,
    pub theme: Option<Seq<char>>,
    pub default_locale: Option<Seq<char>>,
}

#[verifier::ext_equal]
pub struct FormView {
    pub id: Seq<char>,
    pub title: Seq<char>,
    pub version: Seq<char>,
    pub description: Option<Seq<char>>,
    pub presentation: Option<PresentationView>,
    pub progress_policy: Option<ProgressPolicy>,
    pub secrets_policy: Option<JsonView>,
    pub store: Seq<JsonView>,
    pub validations: Seq<RuleView>,
    pub includes: Seq<JsonView>,
    pub questions: Seq<QuestionView>,
}

impl View for Bound {
    type V = BoundView;

    open spec fn view(&self) -> BoundView {
        BoundView { bits: self.bits, text: self.text@ }
    }
}

pub open spec fn opt_bound(bound: Option<Bound>) -> Option<BoundView> {
    match bound {
        Some(b) => Some(b@),
        None => None,
    }
}

impl View for Constraint {
    type V = ConstraintView;

    open spec fn view(&self) -> ConstraintView {
        ConstraintView {
            pattern: text::opt_text(self.pattern),
            min: opt_bound(self.min),
            max: opt_bound(self.max),
            min_len: self.min_len,
            max_len: self.max_len,
        }
    }
}

pub open spec fn opt_constraint(constraint: Option<Constraint>) -> Option<ConstraintView> {
    match constraint {
        Some(c) => Some(c@),
        None => None,
    }
}

pub open spec fn expr_view(expr: Expr) -> ExprView
    decreases expr,
{
    match expr {
        Expr::Literal { value } => ExprView::Literal { value: value@ },
        Expr::Answer { path } => ExprView::Answer { path: path@ },
        Expr::IsSet { path } => ExprView::IsSet { path: path@ },
        Expr::And { expressions } => ExprView::And {
            expressions: Seq::new(
                expressions@.len(),
                |i: int|
                    if 0 <= i < expressions@.len() {
                        expr_view(expressions@[i])
                    } else {
                        ExprView::Answer { path: Seq::empty() }
                    },
            ),
        },
        Expr::Or { expressions } => ExprView::Or {
            expressions: Seq::new(
                expressions@.len(),
                |i: int|
                    if 0 <= i < expressions@.len() {
                        expr_view(expressions@[i])
                    } else {
                        ExprView::Answer { path: Seq::empty() }
                    },
            ),
        },
        Expr::Not { expression } => ExprView::Not { expression: Box::new(expr_view(*expression)) },
        Expr::Eq { left, right } => ExprView::Eq {
            left: Box::new(expr_view(*left)),
            right: Box::new(expr_view(*right)),
        },
        Expr::Ne { left, right } => ExprView::Ne {
            left: Box::new(expr_view(*left)),
            right: Box::new(expr_view(*right)),
        },
        Expr::Lt { left, right } => ExprView::Lt {
            left: Box::new(expr_view(*left)),
            right: Box::new(expr_view(*right)),
        },
        Expr::Lte { left, right } => ExprView::Lte {
            left: Box::new(expr_view(*left)),
            right: Box::new(expr_view(*right)),
        },
        Expr::Gt { left, right } => ExprView::Gt {
            left: Box::new(expr_view(*left)),
            right: Box::new(expr_view(*right)),
        },
        Expr::Gte { left, right } => ExprView::Gte {
            left: Box::new(expr_view(*left)),
            right: Box::new(expr_view(*right)),
        },
    }
}

impl View for Expr {
    type V = ExprView;

    open spec fn view(&self) -> ExprView {
        expr_view(*self)
    }
}

pub open spec fn opt_expr(expr: Option<Expr>) -> Option<ExprView> {
    match expr {
        Some(e) => Some(e@),
        None => None,
    }
}

/// A list of expressions, viewed.
pub open spec fn exprs_view(list: Seq<Expr>) -> Seq<ExprView> {
    Seq::new(list.len(), |i: int| list[i]@)
}

pub open spec fn opt_texts(list: Option<Vec<String>>) -> Option<Seq<Seq<char>>> {
    match list {
        Some(v) => Some(text::texts(v@)),
        None => None,
    }
}

pub open spec fn question_view(q: QuestionSpec) -> QuestionView
    decreases q,
{
    QuestionView {
        id: q.id@,
        kind: q.kind,
        title: q.title@,
        title_i18n: text::opt_text(q.title_i18n),
        description: text::opt_text(q.description),
        description_i18n: text::opt_text(q.description_i18n),
        required: q.required,
        choices: opt_texts(q.choices),
        default_value: text::opt_text(q.default_value),
        secret: q.secret,
        visible_if: opt_expr(q.visible_if),
        constraint: opt_constraint(q.constraint),
        list: match q.list {
            Some(l) => Some(
                ListView {
                    min_items: l.min_items,
                    max_items: l.max_items,
                    fields: Seq::new(
                        l.fields@.len(),
                        |i: int|
                            if 0 <= i < l.fields@.len() {
                                question_view(l.fields@[i])
                            } else {
                                vstd::pervasive::arbitrary()
                            },
                    ),
                },
            ),
            None => None,
        },
        computed: opt_expr(q.computed),
        computed_overridable: q.computed_overridable,
    }
}

impl View for QuestionSpec {
    type V = QuestionView;

    open spec fn view(&self) -> QuestionView {
        question_view(*self)
    }
}

/// A list of questions, viewed.
pub open spec fn questions_view(list: Seq<QuestionSpec>) -> Seq<QuestionView> {
    Seq::new(list.len(), |i: int| list[i]@)
}

impl View for ListSpec {
    type V = ListView;

    open spec fn view(&self) -> ListView {
        ListView {
            min_items: self.min_items,
            max_items: self.max_items,
            fields: questions_view(self.fields@),
        }
    }
}

/// The list part of a question's view is the view of its list part.
pub proof fn lemma_question_list(q: QuestionSpec)
    ensures
        q@.list == match q.list {
            Some(l) => Some(l@),
            None => None,
        },
{
    match q.list {
        Some(l) => {
            assert(q@.list->0.fields =~= questions_view(l.fields@));
        },
        None => {},
    }
}

impl View for CrossFieldValidation {
    type V = RuleView;

    open spec fn view(&self) -> RuleView {
        RuleView {
            id: text::opt_text(self.id),
            message: self.message@,
            fields: text::texts(self.fields@),
            condition: self.condition@,
            code: text::opt_text(self.code),
        }
    }
}

/// A list of cross-field rules, viewed.
pub open spec fn rules_view(list: Seq<CrossFieldValidation>) -> Seq<RuleView> {
    Seq::new(list.len(), |i: int| list[i]@)
}

impl View for FormPresentation {
    type V = PresentationView;

    open spec fn view(&self) -> PresentationView {
        PresentationView {
            intro: text::opt_text(self.intro),
            theme: text::opt_text(self.theme),
            default_locale: text::opt_text(self.default_locale),
        }
    }
}

impl View for FormSpec {
    type V = FormView;

    open spec fn view(&self) -> FormView {
        FormView {
            id: self.id@,
            title: self.title@,
            version: self.version@,
            description: text::opt_text(self.description),
            presentation: match self.presentation {
                Some(p) => Some(p@),
                None => None,
            },
            progress_policy: self.progress_policy,
            secrets_policy: match self.secrets_policy {
                Some(p) => Some(p@),
                None => None,
            },
            store: json::items_view(self.store@),
            validations: rules_view(self.validations@),
            includes: json::items_view(self.includes@),
            questions: questions_view(self.questions@),
        }
    }
}

/// A copy of a list of expressions.
fn copy_exprs(list: &Vec<Expr>) -> (r: Vec<Expr>)
    ensures
        exprs_view(r@) == exprs_view(list@),
    decreases list, 0int,
{
    let mut out: Vec<Expr> = Vec::new();
    let mut i: usize = 0;
    while i < list.len()
        invariant
            i <= list@.len(),
            out@.len() == i,
            forall|k: int| 0 <= k < i ==> #[trigger] out@[k]@ == list@[k]@,
        decreases list.len() - i,
    {
        let item = list[i].copy();
        out.push(item);
        i += 1;
    }
    assert(exprs_view(out@) =~= exprs_view(list@));
    out
}

impl Expr {
    /// A copy of the expression.
    pub fn copy(&self) -> (r: Expr)
        ensures
            r@ == self@,
        decreases self, 1int,
    {
        let r = match self {
            Expr::Literal { value } => Expr::Literal { value: value.copy() },
            Expr::Answer { path } => Expr::Answer { path: path.clone() },
            Expr::IsSet { path } => Expr::IsSet { path: path.clone() },
            Expr::And { expressions } => {
                let list = copy_exprs(expressions);
                let out = Expr::And { expressions: list };
                proof {
                    lemma_and(list);
                    lemma_and(*expressions);
                }
                out
            },
            Expr::Or { expressions } => {
                let list = copy_exprs(expressions);
                let out = Expr::Or { expressions: list };
                proof {
                    lemma_or(list);
                    lemma_or(*expressions);
                }
                out
            },
            Expr::Not { expression } => Expr::Not { expression: Box::new((&**expression).copy()) },
            Expr::Eq { left, right } => Expr::Eq {
                left: Box::new((&**left).copy()),
                right: Box::new((&**right).copy()),
            },
            Expr::Ne { left, right } => Expr::Ne {
                left: Box::new((&**left).copy()),
                right: Box::new((&**right).copy()),
            },
            Expr::Lt { left, right } => Expr::Lt {
                left: Box::new((&**left).copy()),
                right: Box::new((&**right).copy()),
            },
            Expr::Lte { left, right } => Expr::Lte {
                left: Box::new((&**left).copy()),
                right: Box::new((&**right).copy()),
            },
            Expr::Gt { left, right } => Expr::Gt {
                left: Box::new((&**left).copy()),
                right: Box::new((&**right).copy()),
            },
            Expr::Gte { left, right } => Expr::Gte {
                left: Box::new((&**left).copy()),
                right: Box::new((&**right).copy()),
            },
        };
        r
    }
}

pub proof fn lemma_and(list: Vec<Expr>)
    ensures
        (Expr::And { expressions: list })@ == (ExprView::And { expressions: exprs_view(list@) }),
{
    assert((Expr::And { expressions: list })@->And_expressions =~= exprs_view(list@));
}

pub proof fn lemma_or(list: Vec<Expr>)
    ensures
        (Expr::Or { expressions: list })@ == (ExprView::Or { expressions: exprs_view(list@) }),
{
    assert((Expr::Or { expressions: list })@->Or_expressions =~= exprs_view(list@));
}

impl Clone for Expr {
    fn clone(&self) -> (r: Expr)
        ensures
            r@ == self@,
    {
        self.copy()
    }
}

/// A copy of an optional expression.
pub fn copy_opt_expr(expr: &Option<Expr>) -> (r: Option<Expr>)
    ensures
        opt_expr(r) == opt_expr(*expr),
{
    match expr {
        Some(e) => Some(e.copy()),
        None => None,
    }
}

impl Clone for Bound {
    fn clone(&self) -> (r: Bound)
        ensures
            r@ == self@,
    {
        Bound { bits: self.bits, text: self.text.clone() }
    }
}

/// A copy of an optional list of texts.
pub fn copy_opt_texts(list: &Option<Vec<String>>) -> (r: Option<Vec<String>>)
    ensures
        opt_texts(r) == opt_texts(*list),
{
    match list {
        Some(v) => Some(copy_texts(v)),
        None => None,
    }
}

impl Clone for CrossFieldValidation {
    fn clone(&self) -> (r: CrossFieldValidation)
        ensures
            r@ == self@,
    {
        CrossFieldValidation {
            id: copy_opt(&self.id),
            message: self.message.clone(),
            fields: copy_texts(&self.fields),
            condition: self.condition.copy(),
            code: copy_opt(&self.code),
        }
    }
}

/// A copy of a list of cross-field rules.
pub fn copy_rules(list: &Vec<CrossFieldValidation>) -> (r: Vec<CrossFieldValidation>)
    ensures
        rules_view(r@) == rules_view(list@),
{
    let mut out: Vec<CrossFieldValidation> = Vec::new();
    let mut i: usize = 0;
    while i < list.len()
        invariant
            i <= list@.len(),
            out@.len() == i,
            forall|k: int| 0 <= k < i ==> #[trigger] out@[k]@ == list@[k]@,
        decreases list.len() - i,
    {
        let item = list[i].clone();
        out.push(item);
        i += 1;
    }
    assert(rules_view(out@) =~= rules_view(list@));
    out
}

/// What is said of a question is said of the question that is there: no part of it is
/// left out or changed.
pub proof fn law_question_is_seen_whole(q: QuestionSpec)
    ensures
        q@.id == q.id@,
        q@.kind == q.kind,
        q@.title == q.title@,
        q@.title_i18n is Some <==> q.title_i18n is Some,
        q.title_i18n is Some ==> q@.title_i18n->0 == q.title_i18n->0@,
        q@.description is Some <==> q.description is Some,
        q.description is Some ==> q@.description->0 == q.description->0@,
        q@.description_i18n is Some <==> q.description_i18n is Some,
        q.description_i18n is Some ==> q@.description_i18n->0 == q.description_i18n->0@,
        q@.required == q.required,
        q@.default_value is Some <==> q.default_value is Some,
        q.default_value is Some ==> q@.default_value->0 == q.default_value->0@,
        q@.secret == q.secret,
        q@.computed_overridable == q.computed_overridable,
        q@.visible_if is Some <==> q.visible_if is Some,
        q.visible_if is Some ==> q@.visible_if->0 == q.visible_if->0@,
        q@.computed is Some <==> q.computed is Some,
        q.computed is Some ==> q@.computed->0 == q.computed->0@,
        q@.constraint is Some <==> q.constraint is Some,
        q.constraint is Some ==> q@.constraint->0 == q.constraint->0@,
        q@.choices is Some <==> q.choices is Some,
        q.choices is Some ==> q@.choices->0.len() == q.choices->0@.len() && forall|i: int|
            0 <= i < q.choices->0@.len() ==> #[trigger] q@.choices->0[i] == q.choices->0@[i]@,
        q@.list is Some <==> q.list is Some,
        q.list is Some ==> q@.list->0.min_items == q.list->0.min_items && q@.list->0.max_items
            == q.list->0.max_items && q@.list->0.fields.len() == q.list->0.fields@.len() && forall|
            i: int,
        |
            0 <= i < q.list->0.fields@.len() ==> #[trigger] q@.list->0.fields[i]
                == q.list->0.fields@[i]@,
{
}

/// What is said of limits is said of the limits that are there.
pub proof fn law_limits_are_seen_whole(c: Constraint)
    ensures
        c@.min_len == c.min_len,
        c@.max_len == c.max_len,
        c@.pattern is Some <==> c.pattern is Some,
        c.pattern is Some ==> c@.pattern->0 == c.pattern->0@,
        c@.min is Some <==> c.min is Some,
        c.min is Some ==> c@.min->0.bits == c.min->0.bits && c@.min->0.text == c.min->0.text@,
        c@.max is Some <==> c.max is Some,
        c.max is Some ==> c@.max->0.bits == c.max->0.bits && c@.max->0.text == c.max->0.text@,
{
}

/// What is said of a rule is said of the rule that is there.
pub proof fn law_rule_is_seen_whole(rule: CrossFieldValidation)
    ensures
        rule@.message == rule.message@,
        rule@.condition == rule.condition@,
        rule@.id is Some <==> rule.id is Some,
        rule.id is Some ==> rule@.id->0 == rule.id->0@,
        rule@.code is Some <==> rule.code is Some,
        rule.code is Some ==> rule@.code->0 == rule.code->0@,
        rule@.fields.len() == rule.fields@.len(),
        forall|i: int|
            0 <= i < rule.fields@.len() ==> #[trigger] rule@.fields[i] == rule.fields@[i]@,
{
}

/// What is said of a form is said of the form that is there, with each of its
/// questions and its rules in its place.
pub proof fn law_form_is_seen_whole(form: FormSpec)
    ensures
        form@.id == form.id@,
        form@.title == form.title@,
        form@.version == form.version@,
        form@.progress_policy == form.progress_policy,
        form@.description is Some <==> form.description is Some,
        form.description is Some ==> form@.description->0 == form.description->0@,
        form@.questions.len() == form.questions@.len(),
        forall|i: int|
            0 <= i < form.questions@.len() ==> #[trigger] form@.questions[i]
                == form.questions@[i]@,
        form@.validations.len() == form.validations@.len(),
        forall|i: int|
            0 <= i < form.validations@.len() ==> #[trigger] form@.validations[i]
                == form.validations@[i]@,
        form@.store.len() == form.store@.len(),
        forall|i: int| 0 <= i < form.store@.len() ==> #[trigger] form@.store[i] == form.store@[i]@,
        form@.includes.len() == form.includes@.len(),
        forall|i: int|
            0 <= i < form.includes@.len() ==> #[trigger] form@.includes[i] == form.includes@[i]@,
{
}

/// What is said of an expression is said of the expression that is there: it is of
/// the same kind and has the same parts in the same order.
pub proof fn law_expression_is_seen_whole(expr: Expr)
    ensures
        match expr {
            Expr::Literal { value } => expr@ == (ExprView::Literal { value: value@ }),
            Expr::Answer { path } => expr@ == (ExprView::Answer { path: path@ }),
            Expr::IsSet { path } => expr@ == (ExprView::IsSet { path: path@ }),
            Expr::And { expressions } => (expr@ matches ExprView::And { expressions: seen }
                && seen.len() == expressions@.len() && forall|i: int|
                0 <= i < seen.len() ==> #[trigger] seen[i] == expressions@[i]@),
            Expr::Or { expressions } => (expr@ matches ExprView::Or { expressions: seen }
                && seen.len() == expressions@.len() && forall|i: int|
                0 <= i < seen.len() ==> #[trigger] seen[i] == expressions@[i]@),
            Expr::Not { expression } => (expr@ matches ExprView::Not { expression: seen } && *seen
                == expression@),
            Expr::Eq { left, right } => (expr@ matches ExprView::Eq { left: l, right: r } && *l
                == left@ && *r == right@),
            Expr::Ne { left, right } => (expr@ matches ExprView::Ne { left: l, right: r } && *l
                == left@ && *r == right@),
            Expr::Lt { left, right } => (expr@ matches ExprView::Lt { left: l, right: r } && *l
                == left@ && *r == right@),
            Expr::Lte { left, right } => (expr@ matches ExprView::Lte { left: l, right: r } && *l
                == left@ && *r == right@),
            Expr::Gt { left, right } => (expr@ matches ExprView::Gt { left: l, right: r } && *l
                == left@ && *r == right@),
            Expr::Gte { left, right } => (expr@ matches ExprView::Gte { left: l, right: r } && *l
                == left@ && *r == right@),
        },
{
}

} // verus!
