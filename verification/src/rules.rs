use std::sync::Arc;
use vstd::prelude::*;

use crate::errors::{outcome, views, ErrorView, ValidationError};
use crate::form::FormData;
use crate::validators::{
    alpha_verdict, alphanumeric_verdict, email_verdict, max_length_verdict, min_length_verdict,
    not_empty_verdict, numeric_verdict, pattern_verdict, url_verdict, uuid_verdict, IsAlpha,
    IsAlphanumeric, IsEmail, IsNumeric, IsUrl, IsUuid, Matches, MaxLength, MinLength, NotEmpty,
};

verus! {

// ------------------------------------------------------- custom validators

/// The answers that closure `f` can give: `o` is one for value `v` in field
/// `fl` when some call of `f` on texts with those views may return a result
/// whose view is `o`, as `f`'s own contract (`call_ensures`) allows.
pub open spec fn closure_allows<F: Fn(&str, &str) -> Result<(), ValidationError>>(f: F) -> spec_fn(
    Seq<char>,
    Seq<char>,
    Result<(), ErrorView>,
) -> bool {
    |v: Seq<char>, fl: Seq<char>, o: Result<(), ErrorView>|
        exists|vs: &str, fs: &str, r: Result<(), ValidationError>|
            #[trigger] call_ensures(f, (vs, fs), r) && vs@ == v && fs@ == fl && outcome(r) == o
}

/// A check that the caller supplies as a closure taking the value and the
/// field name. Verus cannot hold a `dyn Fn`, so the closure is kept out of
/// its sight: only the trusted functions below build, copy or call one.
#[verifier::external_body]
pub struct CustomValidator {
    check: Arc<dyn Fn(&str, &str) -> Result<(), ValidationError> + Send + Sync>,
}

/// The answers that the closure held by `c` can give, for a value and a
/// field.
pub uninterp spec fn custom_allows(c: CustomValidator) -> spec_fn(
    Seq<char>,
    Seq<char>,
    Result<(), ErrorView>,
) -> bool;

/// Holds the caller's closure (`Arc::new` and the unsizing to `dyn Fn`).
/// The contract claims that the validator answers as `f` can, and asks that
/// `f` accept every value and field, so that each later call meets its
/// `requires`.
#[verifier::external_body]
fn wrap_custom<F>(f: F) -> (c: CustomValidator) where
    F: Fn(&str, &str) -> Result<(), ValidationError> + Send + Sync + 'static,

    requires
        forall|v: &str, fl: &str| call_requires(f, (v, fl)),
    ensures
        custom_allows(c) == closure_allows(f),
{
    CustomValidator { check: Arc::new(f) }
}

/// `Arc::clone` of the held closure: the copy holds the same closure, so it
/// answers as the original does.
#[verifier::external_body]
fn clone_custom(c: &CustomValidator) -> (r: CustomValidator)
    ensures
        custom_allows(r) == custom_allows(*c),
{
    CustomValidator { check: Arc::clone(&c.check) }
}

/// Calls the held closure on `value` and `field`. The contract claims only
/// that the answer is one the closure's own `ensures` allows: every
/// `CustomValidator` comes from `wrap_custom`, whose closure accepts every
/// input, or from `clone_custom`, which keeps that closure.
#[verifier::external_body]
fn run_custom(c: &CustomValidator, value: &str, field: &str) -> (r: Result<(), ValidationError>)
    ensures
        (custom_allows(*c))(value@, field@, outcome(r)),
{
    (c.check)(value, field)
}

impl Clone for CustomValidator {
    fn clone(&self) -> (r: Self)
        ensures
            r.allows() == self.allows(),
    {
        clone_custom(self)
    }
}

impl CustomValidator {
    /// The answers the held closure can give for a value and a field.
    pub open spec fn allows(&self) -> spec_fn(Seq<char>, Seq<char>, Result<(), ErrorView>) -> bool {
        custom_allows(*self)
    }

    /// Hold `f`, which may be called on any value and field, as a
    /// validator; it answers as `f` can.
    fn new<F>(f: F) -> (c: CustomValidator) where
        F: Fn(&str, &str) -> Result<(), ValidationError> + Send + Sync + 'static,

        requires
            forall|v: &str, fl: &str| call_requires(f, (v, fl)),
        ensures
            c.allows() == closure_allows(f),
    {
        wrap_custom(f)
    }
}

// ------------------------------------------------------------------ rules

/// One check in a field's rule list: a built-in validator, or a closure.
pub enum Rule {
    NotEmpty,
    Email,
    Url,
    Uuid,
    Alpha,
    Alphanumeric,
    Numeric,
    MinLength(usize),
    MaxLength(usize),
    Pattern(Matches),
    Custom(CustomValidator),
}

impl Clone for Rule {
    fn clone(&self) -> (r: Self)
        ensures
            built_in(r) == built_in(*self),
            forall|v: Seq<char>, f: Seq<char>| #[trigger] rule_verdict(r, v, f) == rule_verdict(*self, v, f),
            forall|v: Seq<char>, f: Seq<char>, o: Result<(), ErrorView>| #[trigger] fits(r, v, f, o) == fits(*self, v, f, o),
    {
        match self {
            Rule::NotEmpty => Rule::NotEmpty,
            Rule::Email => Rule::Email,
            Rule::Url => Rule::Url,
            Rule::Uuid => Rule::Uuid,
            Rule::Alpha => Rule::Alpha,
            Rule::Alphanumeric => Rule::Alphanumeric,
            Rule::Numeric => Rule::Numeric,
            Rule::MinLength(n) => Rule::MinLength(*n),
            Rule::MaxLength(n) => Rule::MaxLength(*n),
            Rule::Pattern(m) => Rule::Pattern(m.clone()),
            Rule::Custom(c) => Rule::Custom(c.clone()),
        }
    }
}

/// What `rule` answers for `value` in `field`: `None` for a closure, whose
/// answer is its own.
pub open spec fn rule_verdict(rule: Rule, value: Seq<char>, field: Seq<char>) -> Option<Result<(), ErrorView>> {
    match rule {
        Rule::NotEmpty => Some(not_empty_verdict(value, field)),
        Rule::Email => Some(email_verdict(value, field)),
        Rule::Url => Some(url_verdict(value, field)),
        Rule::Uuid => Some(uuid_verdict(value, field)),
        Rule::Alpha => Some(alpha_verdict(value, field)),
        Rule::Alphanumeric => Some(alphanumeric_verdict(value, field)),
        Rule::Numeric => Some(numeric_verdict(value, field)),
        Rule::MinLength(n) => Some(min_length_verdict(n as nat, value, field)),
        Rule::MaxLength(n) => Some(max_length_verdict(n as nat, value, field)),
        Rule::Pattern(m) => Some(pattern_verdict(m.pattern(), value, field)),
        Rule::Custom(_) => None,
    }
}

/// Whether `rule` is a built-in validator.
pub open spec fn built_in(rule: Rule) -> bool {
    !(rule is Custom)
}

/// `out` is an answer that `rule` can give for `value` in `field`: the
/// verdict of a built-in rule, or an answer its closure can give.
pub open spec fn fits(rule: Rule, value: Seq<char>, field: Seq<char>, out: Result<(), ErrorView>) -> bool {
    match rule {
        Rule::Custom(c) => (c.allows())(value, field, out),
        _ => out == rule_verdict(rule, value, field)->0,
    }
}

impl Rule {
    /// Run this check on `value` in `field`.
    pub fn check(&self, value: &str, field: &str) -> (r: Result<(), ValidationError>)
        ensures
            fits(*self, value@, field@, outcome(r)),
    {
        match self {
            Rule::NotEmpty => NotEmpty::validate(value, field),
            Rule::Email => IsEmail::validate(value, field),
            Rule::Url => IsUrl::validate(value, field),
            Rule::Uuid => IsUuid::validate(value, field),
            Rule::Alpha => IsAlpha::validate(value, field),
            Rule::Alphanumeric => IsAlphanumeric::validate(value, field),
            Rule::Numeric => IsNumeric::validate(value, field),
            Rule::MinLength(n) => MinLength(*n).validate(value, field),
            Rule::MaxLength(n) => MaxLength(*n).validate(value, field),
            Rule::Pattern(m) => m.validate(value, field),
            Rule::Custom(c) => run_custom(c, value, field),
        }
    }
}

// --------------------------------------------------------------- outcomes

/// The errors among `outs`, in order.
pub open spec fn failures(outs: Seq<Result<(), ErrorView>>) -> Seq<ErrorView>
    decreases outs.len(),
{
    if outs.len() == 0 {
        Seq::empty()
    } else {
        match outs.last() {
            Ok(()) => failures(outs.drop_last()),
            Err(e) => failures(outs.drop_last()).push(e),
        }
    }
}

/// `Ok` for no errors, else the errors.
pub open spec fn as_result(errors: Seq<ErrorView>) -> Result<(), Seq<ErrorView>> {
    if errors.len() == 0 {
        Ok(())
    } else {
        Err(errors)
    }
}

/// A validation result by the views of its errors.
pub open spec fn errors_outcome(r: Result<(), Vec<ValidationError>>) -> Result<(), Seq<ErrorView>> {
    match r {
        Ok(()) => Ok(()),
        Err(v) => Err(views(v@)),
    }
}

/// `outs` holds one answer per rule of `rules`, each one the rule can give
/// for `value` in `field`.
pub open spec fn outcomes_fit(rules: Seq<Rule>, value: Seq<char>, field: Seq<char>, outs: Seq<Result<(), ErrorView>>) -> bool {
    &&& outs.len() == rules.len()
    &&& forall|i: int| 0 <= i < rules.len() ==> fits(#[trigger] rules[i], value, field, outs[i])
}

/// `res` is a result that checking `value` in `field` against `rules`, in
/// order, can give: the errors of the rules that fail, in rule order, or
/// `Ok` when none fails.
pub open spec fn rules_allow(rules: Seq<Rule>, value: Seq<char>, field: Seq<char>, res: Result<(), Seq<ErrorView>>) -> bool {
    exists|outs: Seq<Result<(), ErrorView>>|
        outcomes_fit(rules, value, field, outs) && res == as_result(failures(outs))
}

/// Whether every rule of `rules` is built in.
pub open spec fn all_built_in(rules: Seq<Rule>) -> bool {
    forall|i: int| 0 <= i < rules.len() ==> built_in(#[trigger] rules[i])
}

/// The answers of built-in `rules` for `value` in `field`.
pub open spec fn built_in_outcomes(rules: Seq<Rule>, value: Seq<char>, field: Seq<char>) -> Seq<Result<(), ErrorView>> {
    Seq::new(rules.len(), |i: int| rule_verdict(rules[i], value, field)->0)
}

/// Built-in rules can give one answer only.
pub proof fn lemma_built_in_outcomes(rules: Seq<Rule>, value: Seq<char>, field: Seq<char>, outs: Seq<Result<(), ErrorView>>)
    requires
        all_built_in(rules),
        outcomes_fit(rules, value, field, outs),
    ensures
        outs == built_in_outcomes(rules, value, field),
{
    assert forall|i: int| 0 <= i < rules.len() implies outs[i] == built_in_outcomes(
        rules,
        value,
        field,
    )[i] by {
        assert(built_in(rules[i]));
        assert(fits(rules[i], value, field, outs[i]));
    }
    assert(outs =~= built_in_outcomes(rules, value, field));
}

// ------------------------------------------------------- ValidationRules

/// The checks for one field, and whether the field may be absent.
pub struct ValidationRules {
    validators: Vec<Rule>,
    field: String,
    optional: bool,
}

impl Clone for ValidationRules {
    fn clone(&self) -> (r: Self)
        ensures
            r.field_view() == self.field_view(),
            r.optional_flag() == self.optional_flag(),
            r.rules().len() == self.rules().len(),
            forall|i: int|
                0 <= i < self.rules().len() ==> built_in(#[trigger] r.rules()[i]) == built_in(
                    self.rules()[i],
                ),
            forall|i: int, v: Seq<char>, f: Seq<char>|
                0 <= i < self.rules().len() ==> #[trigger] rule_verdict(r.rules()[i], v, f)
                    == rule_verdict(self.rules()[i], v, f),
            forall|i: int, v: Seq<char>, f: Seq<char>, o: Result<(), ErrorView>|
                0 <= i < self.rules().len() ==> #[trigger] fits(r.rules()[i], v, f, o) == fits(
                    self.rules()[i],
                    v,
                    f,
                    o,
                ),
    {
        let mut validators: Vec<Rule> = Vec::new();
        let n = self.validators.len();
        for i in 0..n
            invariant
                n == self.validators@.len(),
                validators@.len() == i,
                forall|j: int|
                    0 <= j < i ==> built_in(#[trigger] validators@[j]) == built_in(
                        self.validators@[j],
                    ),
                forall|j: int, v: Seq<char>, f: Seq<char>|
                    0 <= j < i ==> #[trigger] rule_verdict(validators@[j], v, f) == rule_verdict(
                        self.validators@[j],
                        v,
                        f,
                    ),
                forall|j: int, v: Seq<char>, f: Seq<char>, o: Result<(), ErrorView>|
                    0 <= j < i ==> #[trigger] fits(validators@[j], v, f, o) == fits(
                        self.validators@[j],
                        v,
                        f,
                        o,
                    ),
        {
            validators.push(self.validators[i].clone());
        }
        ValidationRules { validators, field: self.field.clone(), optional: self.optional }
    }
}

impl ValidationRules {
    /// The checks, in the order they run.
    pub closed spec fn rules(&self) -> Seq<Rule> {
        self.validators@
    }

    /// The field the checks apply to.
    pub closed spec fn field_view(&self) -> Seq<char> {
        self.field@
    }

    /// Whether the checks are skipped when the field is absent.
    pub closed spec fn optional_flag(&self) -> bool {
        self.optional
    }

    /// No checks for `field`, which is required: if the input has no entry
    /// for it, [`ValidationBuilder::validate`] checks `""` in its place.
    pub fn for_field(field: &str) -> (r: ValidationRules)
        ensures
            r.field_view() == field@,
            !r.optional_flag(),
            r.rules() == Seq::<Rule>::empty(),
    {
        ValidationRules { validators: Vec::new(), field: field.to_owned(), optional: false }
    }

    /// Skip these rules when the field is absent from the input. A value
    /// that is present, even an empty one, is still checked.
    pub fn optional(self) -> (r: ValidationRules)
        ensures
            r.field_view() == self.field_view(),
            r.optional_flag(),
            r.rules() == self.rules(),
    {
        let mut r = self;
        r.optional = true;
        r
    }

    /// Whether these rules are skipped when the field is absent.
    pub fn is_optional(&self) -> (b: bool)
        ensures
            b == self.optional_flag(),
    {
        self.optional
    }

    /// The field these rules apply to.
    pub fn field_name(&self) -> (s: &str)
        ensures
            s@ == self.field_view(),
    {
        self.field.as_str()
    }

    /// Add a closure as the last check; it must accept every value and field
    /// (its `requires`, if it has one, holds of all of them).
    pub fn add<F>(self, validator: F) -> (r: ValidationRules) where
        F: Fn(&str, &str) -> Result<(), ValidationError> + Send + Sync + 'static,

        requires
            forall|v: &str, fl: &str| call_requires(validator, (v, fl)),
        ensures
            r.field_view() == self.field_view(),
            r.optional_flag() == self.optional_flag(),
            r.rules().len() == self.rules().len() + 1,
            r.rules().drop_last() == self.rules(),
            r.rules().last() matches Rule::Custom(c) && c.allows() == closure_allows(validator),
    {
        self.rule(Rule::Custom(CustomValidator::new(validator)))
    }

    /// Add `rule` as the last check.
    pub fn rule(self, rule: Rule) -> (r: ValidationRules)
        ensures
            r.field_view() == self.field_view(),
            r.optional_flag() == self.optional_flag(),
            r.rules() == self.rules().push(rule),
    {
        let mut r = self;
        r.validators.push(rule);
        r
    }

    /// Check `value` against every rule, in order. The result is `Ok` when
    /// no rule fails, else the errors of the failing rules in rule order;
    /// built-in rules answer as their validators do.
    pub fn validate(&self, value: &str) -> (r: Result<(), Vec<ValidationError>>)
        ensures
            rules_allow(self.rules(), value@, self.field_view(), errors_outcome(r)),
            all_built_in(self.rules()) ==> errors_outcome(r) == as_result(
                failures(built_in_outcomes(self.rules(), value@, self.field_view())),
            ),
    {
        let mut errors: Vec<ValidationError> = Vec::new();
        let ghost mut outs: Seq<Result<(), ErrorView>> = Seq::empty();
        let n = self.validators.len();
        for i in 0..n
            invariant
                n == self.validators@.len(),
                outs.len() == i,
                forall|j: int|
                    0 <= j < i ==> fits(#[trigger] self.validators@[j], value@, self.field@, outs[j]),
                views(errors@) == failures(outs),
        {
            let r = self.validators[i].check(value, self.field.as_str());
            let ghost before = outs;
            proof {
                outs = outs.push(outcome(r));
                assert(outs.drop_last() =~= before);
            }
            match r {
                Ok(()) => {},
                Err(e) => {
                    let ghost old_errors = errors@;
                    errors.push(e);
                    proof {
                        assert(views(errors@) =~= views(old_errors).push(e@));
                    }
                },
            }
        }
        proof {
            assert(outcomes_fit(self.rules(), value@, self.field_view(), outs));
            if all_built_in(self.rules()) {
                lemma_built_in_outcomes(self.rules(), value@, self.field_view(), outs);
            }
        }
        if errors.len() == 0 {
            Ok(())
        } else {
            Err(errors)
        }
    }
}

// ------------------------------------------------------ ValidationBuilder

/// The value that `rules` check in `data`: the submitted value; `None`, to
/// skip them, when the field is absent and optional; and the empty value
/// when it is absent and required.
pub open spec fn value_for_spec(rules: ValidationRules, data: Map<Seq<char>, Seq<char>>) -> Option<Seq<char>> {
    if data.contains_key(rules.field_view()) {
        Some(data[rules.field_view()])
    } else if rules.optional_flag() {
        None
    } else {
        Some(Seq::empty())
    }
}

/// `errors` are errors that `rules` can report on `data`: none when they are
/// skipped, else the errors of a result they can give for their value.
pub open spec fn set_fits(rules: ValidationRules, data: Map<Seq<char>, Seq<char>>, errors: Seq<ErrorView>) -> bool {
    match value_for_spec(rules, data) {
        None => errors.len() == 0,
        Some(v) => rules_allow(rules.rules(), v, rules.field_view(), as_result(errors)),
    }
}

/// The error lists of `lists`, one after the other.
pub open spec fn flatten(lists: Seq<Seq<ErrorView>>) -> Seq<ErrorView>
    decreases lists.len(),
{
    if lists.len() == 0 {
        Seq::empty()
    } else {
        flatten(lists.drop_last()) + lists.last()
    }
}

/// `res` is a result that validating `data` against the rule sets `sets`
/// can give: the errors of each rule set, in order, or `Ok` when there are
/// none.
pub open spec fn builder_allows(sets: Seq<ValidationRules>, data: Map<Seq<char>, Seq<char>>, res: Result<(), Seq<ErrorView>>) -> bool {
    exists|lists: Seq<Seq<ErrorView>>|
        {
            &&& lists.len() == sets.len()
            &&& forall|j: int| 0 <= j < sets.len() ==> set_fits(#[trigger] sets[j], data, lists[j])
            &&& res == as_result(flatten(lists))
        }
}

/// The errors that built-in rule sets report on `data`.
pub open spec fn built_in_lists(sets: Seq<ValidationRules>, data: Map<Seq<char>, Seq<char>>) -> Seq<Seq<ErrorView>> {
    Seq::new(
        sets.len(),
        |j: int|
            match value_for_spec(sets[j], data) {
                None => Seq::empty(),
                Some(v) => failures(built_in_outcomes(sets[j].rules(), v, sets[j].field_view())),
            },
    )
}

/// Whether every rule of every set in `sets` is built in.
pub open spec fn sets_built_in(sets: Seq<ValidationRules>) -> bool {
    forall|j: int| 0 <= j < sets.len() ==> all_built_in(#[trigger] sets[j].rules())
}

/// `as_result` loses nothing.
pub proof fn lemma_as_result_injective(a: Seq<ErrorView>, b: Seq<ErrorView>)
    requires
        as_result(a) == as_result(b),
    ensures
        a == b,
{
    if a.len() == 0 {
        assert(b.len() == 0);
        assert(a =~= b);
    }
}

/// Validation rules for several fields.
pub struct ValidationBuilder {
    rules: Vec<ValidationRules>,
}

impl ValidationBuilder {
    /// The rule sets, in the order they run.
    pub closed spec fn rule_sets(&self) -> Seq<ValidationRules> {
        self.rules@
    }

    /// No rule sets.
    pub fn new() -> (b: ValidationBuilder)
        ensures
            b.rule_sets() == Seq::<ValidationRules>::empty(),
    {
        ValidationBuilder { rules: Vec::new() }
    }

    /// Add the rules of a field as the last rule set.
    pub fn field(self, rules: ValidationRules) -> (b: ValidationBuilder)
        ensures
            b.rule_sets() == self.rule_sets().push(rules),
    {
        let mut b = self;
        b.rules.push(rules);
        b
    }

    /// The rule sets, in the order they run.
    pub fn fields(&self) -> (r: &Vec<ValidationRules>)
        ensures
            r@ == self.rule_sets(),
    {
        &self.rules
    }

    /// The value a rule set is run against, or `None` to skip it: shared by
    /// the sequential and the parallel paths, so the two treat a missing
    /// field alike.
    pub fn value_for<'a>(rule: &ValidationRules, data: &'a FormData) -> (r: Option<&'a str>)
        ensures
            match r {
                Some(v) => value_for_spec(*rule, data@) == Some(v@),
                None => value_for_spec(*rule, data@) is None,
            },
    {
        match data.get(rule.field_name()) {
            Some(value) => Some(value.as_str()),
            None => {
                if rule.is_optional() {
                    None
                } else {
                    let empty = "";
                    proof {
                        reveal_strlit("");
                        assert(empty@ =~= Seq::<char>::empty());
                    }
                    Some(empty)
                }
            },
        }
    }

    /// Validate every field. A field with rules but no entry in `data` is
    /// checked as `""`, unless its rules are optional, when they are
    /// skipped. The errors of the rule sets come in rule-set order.
    pub fn validate(&self, data: &FormData) -> (r: Result<(), Vec<ValidationError>>)
        ensures
            builder_allows(self.rule_sets(), data@, errors_outcome(r)),
            sets_built_in(self.rule_sets()) ==> errors_outcome(r) == as_result(
                flatten(built_in_lists(self.rule_sets(), data@)),
            ),
    {
        let mut all_errors: Vec<ValidationError> = Vec::new();
        let ghost mut lists: Seq<Seq<ErrorView>> = Seq::empty();
        let n = self.rules.len();
        for i in 0..n
            invariant
                n == self.rules@.len(),
                lists.len() == i,
                forall|j: int| 0 <= j < i ==> set_fits(#[trigger] self.rules@[j], data@, lists[j]),
                sets_built_in(self.rules@) ==> forall|j: int|
                    0 <= j < i ==> #[trigger] lists[j] == built_in_lists(self.rules@, data@)[j],
                views(all_errors@) == flatten(lists),
        {
            let rule = &self.rules[i];
            let ghost before = lists;
            let ghost before_errors = all_errors@;
            match Self::value_for(rule, data) {
                None => {
                    proof {
                        lists = lists.push(Seq::empty());
                        assert(lists.drop_last() =~= before);
                        assert(flatten(lists) =~= flatten(before));
                    }
                },
                Some(value) => {
                    let r = rule.validate(value);
                    let ghost errs = match errors_outcome(r) {
                        Ok(()) => Seq::<ErrorView>::empty(),
                        Err(es) => es,
                    };
                    proof {
                        let outs = choose|outs: Seq<Result<(), ErrorView>>|
                            outcomes_fit(rule.rules(), value@, rule.field_view(), outs)
                                && errors_outcome(r) == as_result(failures(outs));
                        assert(as_result(errs) == errors_outcome(r));
                        lists = lists.push(errs);
                        assert(lists.drop_last() =~= before);
                        if sets_built_in(self.rules@) {
                            assert(all_built_in(self.rules@[i as int].rules()));
                            lemma_as_result_injective(
                                errs,
                                failures(built_in_outcomes(rule.rules(), value@, rule.field_view())),
                            );
                        }
                    }
                    match r {
                        Ok(()) => {
                            proof {
                                assert(flatten(lists) =~= flatten(before));
                            }
                        },
                        Err(mut errors) => {
                            all_errors.append(&mut errors);
                            proof {
                                assert(views(all_errors@) =~= views(before_errors) + errs);
                            }
                        },
                    }
                },
            }
        }
        proof {
            assert(lists.len() == self.rule_sets().len());
            if sets_built_in(self.rules@) {
                assert(lists =~= built_in_lists(self.rules@, data@));
            }
        }
        if all_errors.len() == 0 {
            Ok(())
        } else {
            Err(all_errors)
        }
    }
}

impl Default for ValidationBuilder {
    fn default() -> (b: ValidationBuilder)
        ensures
            b.rule_sets() == Seq::<ValidationRules>::empty(),
    {
        ValidationBuilder::new()
    }
}

} // verus!
