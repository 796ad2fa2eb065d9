use vstd::prelude::*;

use crate::errors::{errors_for_field, outcome, ErrorView};
use crate::rules::{
    as_result, builder_allows, built_in, built_in_lists, built_in_outcomes, closure_allows, failures,
    flatten, fits,
    outcomes_fit, rule_verdict, rules_allow, set_fits, value_for_spec, Rule, ValidationRules,
};
use crate::form::{lemma_form_finite, FormData};
use crate::text::CharClass;
use crate::pipe::{decision, validated_answer, PipeRejection};
use crate::errors::ValidationError;
use crate::traits::Validate;
use crate::text::{class_has, white_space};
use crate::validators::{
    uuid_groups, parsed_url_scheme, url_accepts, uuid_accepts, email_split, email_accepts, max_length_verdict, min_length_verdict, nonempty_run, not_empty_verdict, NotEmpty,
};

verus! {

// ------------------------------------------------------------ helpers

proof fn lemma_failures_contains(outs: Seq<Result<(), ErrorView>>, k: int)
    requires
        0 <= k < outs.len(),
        outs[k] is Err,
    ensures
        failures(outs).contains(outs[k]->Err_0),
    decreases outs.len(),
{
    if k < outs.len() - 1 {
        lemma_failures_contains(outs.drop_last(), k);
        let f = failures(outs.drop_last());
        let i = choose|i: int| 0 <= i < f.len() && f[i] == outs[k]->Err_0;
        match outs.last() {
            Ok(()) => {},
            Err(e) => {
                assert(f.push(e)[i] == f[i]);
            },
        }
    } else {
        let f = failures(outs.drop_last());
        assert(f.push(outs[k]->Err_0)[f.len() as int] == outs[k]->Err_0);
    }
}

proof fn lemma_failures_empty(outs: Seq<Result<(), ErrorView>>)
    ensures
        failures(outs).len() == 0 <==> forall|i: int| 0 <= i < outs.len() ==> #[trigger] outs[i] is Ok,
    decreases outs.len(),
{
    if outs.len() > 0 {
        lemma_failures_empty(outs.drop_last());
        if failures(outs).len() == 0 {
            assert forall|i: int| 0 <= i < outs.len() implies #[trigger] outs[i] is Ok by {
                if i < outs.len() - 1 {
                    assert(outs.drop_last()[i] == outs[i]);
                }
            }
        } else {
            if forall|i: int| 0 <= i < outs.len() ==> #[trigger] outs[i] is Ok {
                assert(outs[outs.len() - 1] is Ok);
                assert forall|i: int| 0 <= i < outs.drop_last().len() implies #[trigger] outs.drop_last()[i] is Ok by {
                    assert(outs[i] is Ok);
                }
            }
        }
    }
}

proof fn lemma_flatten_contains(lists: Seq<Seq<ErrorView>>, j: int, e: ErrorView)
    requires
        0 <= j < lists.len(),
        lists[j].contains(e),
    ensures
        flatten(lists).contains(e),
    decreases lists.len(),
{
    let front = flatten(lists.drop_last());
    if j < lists.len() - 1 {
        lemma_flatten_contains(lists.drop_last(), j, e);
        let i = choose|i: int| 0 <= i < front.len() && front[i] == e;
        assert((front + lists.last())[i] == e);
    } else {
        let i = choose|i: int| 0 <= i < lists[j].len() && lists[j][i] == e;
        assert((front + lists.last())[front.len() + i] == e);
    }
}

proof fn lemma_flatten_empty(lists: Seq<Seq<ErrorView>>)
    ensures
        flatten(lists).len() == 0 <==> forall|j: int| 0 <= j < lists.len() ==> #[trigger] lists[j].len() == 0,
    decreases lists.len(),
{
    if lists.len() > 0 {
        let front = lists.drop_last();
        lemma_flatten_empty(front);
        assert(flatten(lists) == flatten(front) + lists.last());
        if flatten(lists).len() == 0 {
            assert forall|j: int| 0 <= j < lists.len() implies #[trigger] lists[j].len() == 0 by {
                if j < lists.len() - 1 {
                    assert(front[j] == lists[j]);
                }
            }
        } else if forall|j: int| 0 <= j < lists.len() ==> #[trigger] lists[j].len() == 0 {
            assert(lists[lists.len() - 1].len() == 0);
            assert forall|j: int| 0 <= j < front.len() implies #[trigger] front[j].len() == 0 by {
                assert(lists[j].len() == 0);
            }
        }
    }
}

proof fn lemma_flatten_remove_empty(lists: Seq<Seq<ErrorView>>, j: int)
    requires
        0 <= j < lists.len(),
        lists[j].len() == 0,
    ensures
        flatten(lists.remove(j)) == flatten(lists),
    decreases lists.len(),
{
    if j == lists.len() - 1 {
        assert(lists.remove(j) =~= lists.drop_last());
        assert(flatten(lists) =~= flatten(lists.drop_last()));
    } else {
        lemma_flatten_remove_empty(lists.drop_last(), j);
        assert(lists.remove(j).drop_last() =~= lists.drop_last().remove(j));
        assert(lists.remove(j).last() == lists.last());
    }
}

/// The errors a result reports: none for `Ok`.
pub open spec fn reported(res: Result<(), Seq<ErrorView>>) -> Seq<ErrorView> {
    match res {
        Ok(()) => Seq::empty(),
        Err(errors) => errors,
    }
}

/// `errors` followed by the error of `out`, if it is one.
pub open spec fn then_outcome(errors: Seq<ErrorView>, out: Result<(), ErrorView>) -> Seq<ErrorView> {
    match out {
        Ok(()) => errors,
        Err(e) => errors.push(e),
    }
}

proof fn lemma_reported_as_result(errors: Seq<ErrorView>)
    ensures
        reported(as_result(errors)) == errors,
{
    if errors.len() == 0 {
        assert(errors =~= Seq::<ErrorView>::empty());
    }
}

/// Rule sets that check the same values in two inputs allow the same
/// results on both, and built-in ones give the same errors.
proof fn lemma_same_values_same_results(
    sets: Seq<ValidationRules>,
    d1: Map<Seq<char>, Seq<char>>,
    d2: Map<Seq<char>, Seq<char>>,
    res: Result<(), Seq<ErrorView>>,
)
    requires
        forall|j: int|
            0 <= j < sets.len() ==> #[trigger] value_for_spec(sets[j], d1) == value_for_spec(
                sets[j],
                d2,
            ),
    ensures
        builder_allows(sets, d1, res) == builder_allows(sets, d2, res),
        built_in_lists(sets, d1) == built_in_lists(sets, d2),
{
    assert forall|j: int, errs: Seq<ErrorView>| 0 <= j < sets.len() implies #[trigger] set_fits(
        sets[j],
        d1,
        errs,
    ) == set_fits(sets[j], d2, errs) by {
        assert(value_for_spec(sets[j], d1) == value_for_spec(sets[j], d2));
    }
    if builder_allows(sets, d1, res) {
        let lists = choose|lists: Seq<Seq<ErrorView>>|
            {
                &&& lists.len() == sets.len()
                &&& forall|i: int| 0 <= i < sets.len() ==> set_fits(#[trigger] sets[i], d1, lists[i])
                &&& res == as_result(flatten(lists))
            };
        assert forall|i: int| 0 <= i < sets.len() implies set_fits(#[trigger] sets[i], d2, lists[i]) by {
            assert(set_fits(sets[i], d1, lists[i]));
        }
    }
    if builder_allows(sets, d2, res) {
        let lists = choose|lists: Seq<Seq<ErrorView>>|
            {
                &&& lists.len() == sets.len()
                &&& forall|i: int| 0 <= i < sets.len() ==> set_fits(#[trigger] sets[i], d2, lists[i])
                &&& res == as_result(flatten(lists))
            };
        assert forall|i: int| 0 <= i < sets.len() implies set_fits(#[trigger] sets[i], d1, lists[i]) by {
            assert(set_fits(sets[i], d2, lists[i]));
        }
    }
    assert(built_in_lists(sets, d1) =~= built_in_lists(sets, d2));
}

// ----------------------------------------------------------------- laws

/// A field's rules pass exactly when every one of its checks passes, and
/// otherwise report the errors of the failing checks.
pub proof fn law_rules_pass_exactly_when_every_check_passes(outs: Seq<Result<(), ErrorView>>)
    ensures
        as_result(failures(outs)) is Ok <==> forall|i: int| 0 <= i < outs.len() ==> #[trigger] outs[i] is Ok,
        forall|k: int|
            0 <= k < outs.len() && #[trigger] outs[k] is Err ==> failures(outs).contains(outs[k]->Err_0),
{
    lemma_failures_empty(outs);
    assert forall|k: int| 0 <= k < outs.len() && #[trigger] outs[k] is Err implies failures(
        outs,
    ).contains(outs[k]->Err_0) by {
        lemma_failures_contains(outs, k);
    }
}

/// A form passes exactly when every rule set reports no error.
pub proof fn law_form_passes_exactly_when_every_field_passes(lists: Seq<Seq<ErrorView>>)
    ensures
        as_result(flatten(lists)) is Ok <==> forall|j: int| 0 <= j < lists.len() ==> #[trigger] lists[j].len() == 0,
{
    lemma_flatten_empty(lists);
}

/// A required field that is absent from the input is checked as the empty
/// value, not skipped: if its rules include `NotEmpty`, as the built-in rule
/// or as the closure `NotEmpty::validate` given to `add`, the form fails
/// with an error for that field.
pub proof fn law_missing_required_field_fails(
    sets: Seq<ValidationRules>,
    data: Map<Seq<char>, Seq<char>>,
    j: int,
    k: int,
    res: Result<(), Seq<ErrorView>>,
)
    requires
        builder_allows(sets, data, res),
        0 <= j < sets.len(),
        !data.contains_key(sets[j].field_view()),
        !sets[j].optional_flag(),
        0 <= k < sets[j].rules().len(),
        sets[j].rules()[k] is NotEmpty || (sets[j].rules()[k] matches Rule::Custom(c)
            && c.allows() == closure_allows(NotEmpty::validate)),
    ensures
        value_for_spec(sets[j], data) == Some(Seq::<char>::empty()),
        res is Err,
        exists|e: ErrorView| res->Err_0.contains(e) && e.field == sets[j].field_view(),
{
    let lists = choose|lists: Seq<Seq<ErrorView>>|
        {
            &&& lists.len() == sets.len()
            &&& forall|i: int| 0 <= i < sets.len() ==> set_fits(#[trigger] sets[i], data, lists[i])
            &&& res == as_result(flatten(lists))
        };
    let rules = sets[j].rules();
    let field = sets[j].field_view();
    let empty = Seq::<char>::empty();
    assert(set_fits(sets[j], data, lists[j]));
    assert(rules_allow(rules, empty, field, as_result(lists[j])));
    let outs = choose|outs: Seq<Result<(), ErrorView>>|
        outcomes_fit(rules, empty, field, outs) && as_result(lists[j]) == as_result(failures(outs));
    assert(fits(rules[k], empty, field, outs[k]));
    assert(!(exists|i: int| 0 <= i < empty.len() && !crate::text::white_space(#[trigger] empty[i])));
    if rules[k] is Custom {
        let (vs, fs, r) = choose|vs: &str, fs: &str, r: Result<(), crate::errors::ValidationError>|
            #[trigger] call_ensures(NotEmpty::validate, (vs, fs), r) && vs@ == empty && fs@
                == field && outcome(r) == outs[k];
        assert(outcome(r) == not_empty_verdict(vs@, fs@));
    }
    let e = outs[k]->Err_0;
    assert(e.field == field);
    lemma_failures_contains(outs, k);
    crate::rules::lemma_as_result_injective(lists[j], failures(outs));
    lemma_flatten_contains(lists, j, e);
    assert(flatten(lists).len() > 0);
    assert(res->Err_0 == flatten(lists));
    assert(res->Err_0.contains(e));
}

/// An optional field that is absent from the input changes nothing: the
/// form allows exactly the results it would allow without that field's
/// rules.
pub proof fn law_absent_optional_field_is_skipped(
    sets: Seq<ValidationRules>,
    data: Map<Seq<char>, Seq<char>>,
    j: int,
    res: Result<(), Seq<ErrorView>>,
)
    requires
        0 <= j < sets.len(),
        !data.contains_key(sets[j].field_view()),
        sets[j].optional_flag(),
    ensures
        builder_allows(sets, data, res) == builder_allows(sets.remove(j), data, res),
{
    if builder_allows(sets, data, res) {
        let lists = choose|lists: Seq<Seq<ErrorView>>|
            {
                &&& lists.len() == sets.len()
                &&& forall|i: int| 0 <= i < sets.len() ==> set_fits(#[trigger] sets[i], data, lists[i])
                &&& res == as_result(flatten(lists))
            };
        assert(set_fits(sets[j], data, lists[j]));
        lemma_flatten_remove_empty(lists, j);
        let rest = lists.remove(j);
        assert forall|i: int| 0 <= i < sets.remove(j).len() implies set_fits(
            #[trigger] sets.remove(j)[i],
            data,
            rest[i],
        ) by {
            if i < j {
                assert(sets.remove(j)[i] == sets[i]);
                assert(rest[i] == lists[i]);
            } else {
                assert(sets.remove(j)[i] == sets[i + 1]);
                assert(rest[i] == lists[i + 1]);
            }
        }
    }
    if builder_allows(sets.remove(j), data, res) {
        let rest = choose|lists: Seq<Seq<ErrorView>>|
            {
                &&& lists.len() == sets.remove(j).len()
                &&& forall|i: int|
                    0 <= i < sets.remove(j).len() ==> set_fits(
                        #[trigger] sets.remove(j)[i],
                        data,
                        lists[i],
                    )
                &&& res == as_result(flatten(lists))
            };
        let lists = rest.insert(j, Seq::<ErrorView>::empty());
        assert(lists.remove(j) =~= rest);
        lemma_flatten_remove_empty(lists, j);
        assert forall|i: int| 0 <= i < sets.len() implies set_fits(#[trigger] sets[i], data, lists[i]) by {
            if i < j {
                assert(sets.remove(j)[i] == sets[i]);
                assert(set_fits(sets.remove(j)[i], data, rest[i]));
            } else if i > j {
                assert(sets.remove(j)[i - 1] == sets[i]);
                assert(set_fits(sets.remove(j)[i - 1], data, rest[i - 1]));
            }
        }
    }
}

/// A required field that is absent from the input is validated as if it
/// held the empty value: the form allows the same results either way, and
/// built-in rules give the same errors.
pub proof fn law_missing_required_field_is_validated_as_empty(
    sets: Seq<ValidationRules>,
    data: Map<Seq<char>, Seq<char>>,
    field: Seq<char>,
    res: Result<(), Seq<ErrorView>>,
)
    requires
        !data.contains_key(field),
        forall|j: int|
            0 <= j < sets.len() && #[trigger] sets[j].field_view() == field ==> !sets[j].optional_flag(),
    ensures
        builder_allows(sets, data, res) == builder_allows(
            sets,
            data.insert(field, Seq::empty()),
            res,
        ),
        built_in_lists(sets, data) == built_in_lists(sets, data.insert(field, Seq::empty())),
{
    let d2 = data.insert(field, Seq::<char>::empty());
    assert forall|j: int| 0 <= j < sets.len() implies #[trigger] value_for_spec(sets[j], data)
        == value_for_spec(sets[j], d2) by {
        if sets[j].field_view() == field {
            assert(!sets[j].optional_flag());
        }
    }
    lemma_same_values_same_results(sets, data, d2, res);
}

/// An entry for a name that no rule set checks changes nothing: the form
/// allows the same results with it or without it, and built-in rules give
/// the same errors.
pub proof fn law_unchecked_entry_changes_nothing(
    sets: Seq<ValidationRules>,
    data: Map<Seq<char>, Seq<char>>,
    key: Seq<char>,
    value: Seq<char>,
    res: Result<(), Seq<ErrorView>>,
)
    requires
        forall|j: int| 0 <= j < sets.len() ==> #[trigger] sets[j].field_view() != key,
    ensures
        builder_allows(sets, data, res) == builder_allows(sets, data.insert(key, value), res),
        built_in_lists(sets, data) == built_in_lists(sets, data.insert(key, value)),
{
    let d2 = data.insert(key, value);
    assert forall|j: int| 0 <= j < sets.len() implies #[trigger] value_for_spec(sets[j], data)
        == value_for_spec(sets[j], d2) by {
        assert(sets[j].field_view() != key);
    }
    lemma_same_values_same_results(sets, data, d2, res);
}

/// Adding a rule set to a form: the form allows a result exactly when it
/// is the errors of a result the old form allows followed by errors the
/// new rule set can report.
pub proof fn law_field_adds_its_errors_last(
    sets: Seq<ValidationRules>,
    set: ValidationRules,
    data: Map<Seq<char>, Seq<char>>,
    res: Result<(), Seq<ErrorView>>,
)
    ensures
        builder_allows(sets.push(set), data, res) <==> exists|
            before: Result<(), Seq<ErrorView>>,
            errors: Seq<ErrorView>,
        |
            {
                &&& builder_allows(sets, data, before)
                &&& set_fits(set, data, errors)
                &&& res == as_result(reported(before) + errors)
            },
{
    let all = sets.push(set);
    if builder_allows(all, data, res) {
        let lists = choose|lists: Seq<Seq<ErrorView>>|
            {
                &&& lists.len() == all.len()
                &&& forall|i: int| 0 <= i < all.len() ==> set_fits(#[trigger] all[i], data, lists[i])
                &&& res == as_result(flatten(lists))
            };
        let front = lists.drop_last();
        let before = as_result(flatten(front));
        assert forall|i: int| 0 <= i < sets.len() implies set_fits(#[trigger] sets[i], data, front[i]) by {
            assert(all[i] == sets[i]);
            assert(set_fits(all[i], data, lists[i]));
        }
        assert(builder_allows(sets, data, before));
        assert(set_fits(all[sets.len() as int], data, lists[sets.len() as int]));
        lemma_reported_as_result(flatten(front));
        assert(flatten(lists) == flatten(front) + lists.last());
    }
    if exists|before: Result<(), Seq<ErrorView>>, errors: Seq<ErrorView>|
        {
            &&& builder_allows(sets, data, before)
            &&& set_fits(set, data, errors)
            &&& res == as_result(reported(before) + errors)
        } {
        let (before, errors) = choose|before: Result<(), Seq<ErrorView>>, errors: Seq<ErrorView>|
            {
                &&& builder_allows(sets, data, before)
                &&& set_fits(set, data, errors)
                &&& res == as_result(reported(before) + errors)
            };
        let front = choose|lists: Seq<Seq<ErrorView>>|
            {
                &&& lists.len() == sets.len()
                &&& forall|i: int| 0 <= i < sets.len() ==> set_fits(#[trigger] sets[i], data, lists[i])
                &&& before == as_result(flatten(lists))
            };
        lemma_reported_as_result(flatten(front));
        let lists = front.push(errors);
        assert(lists.drop_last() =~= front);
        assert forall|i: int| 0 <= i < all.len() implies set_fits(#[trigger] all[i], data, lists[i]) by {
            if i < sets.len() {
                assert(all[i] == sets[i]);
                assert(set_fits(sets[i], data, front[i]));
            }
        }
        assert(flatten(lists) == flatten(front) + errors);
    }
}

/// Adding a check to a field's rules: the rules allow a result on a value
/// exactly when it is the errors of a result the old rules allow followed
/// by the error of an answer the new check can give, if that answer is one.
pub proof fn law_added_check_reports_last(
    rules: Seq<Rule>,
    rule: Rule,
    value: Seq<char>,
    field: Seq<char>,
    res: Result<(), Seq<ErrorView>>,
)
    ensures
        rules_allow(rules.push(rule), value, field, res) <==> exists|
            before: Result<(), Seq<ErrorView>>,
            out: Result<(), ErrorView>,
        |
            {
                &&& rules_allow(rules, value, field, before)
                &&& fits(rule, value, field, out)
                &&& res == as_result(then_outcome(reported(before), out))
            },
{
    let all = rules.push(rule);
    if rules_allow(all, value, field, res) {
        let outs = choose|outs: Seq<Result<(), ErrorView>>|
            outcomes_fit(all, value, field, outs) && res == as_result(failures(outs));
        let front = outs.drop_last();
        let before = as_result(failures(front));
        assert forall|i: int| 0 <= i < rules.len() implies fits(#[trigger] rules[i], value, field, front[i]) by {
            assert(all[i] == rules[i]);
            assert(fits(all[i], value, field, outs[i]));
        }
        assert(outcomes_fit(rules, value, field, front));
        assert(rules_allow(rules, value, field, before));
        assert(fits(all[rules.len() as int], value, field, outs[rules.len() as int]));
        lemma_reported_as_result(failures(front));
        let out = outs.last();
        assert(failures(outs) == then_outcome(failures(front), out));
        assert(fits(rule, value, field, out));
        assert(res == as_result(then_outcome(reported(before), out)));
    }
    if exists|before: Result<(), Seq<ErrorView>>, out: Result<(), ErrorView>|
        {
            &&& rules_allow(rules, value, field, before)
            &&& fits(rule, value, field, out)
            &&& res == as_result(then_outcome(reported(before), out))
        } {
        let (before, out) = choose|before: Result<(), Seq<ErrorView>>, out: Result<(), ErrorView>|
            {
                &&& rules_allow(rules, value, field, before)
                &&& fits(rule, value, field, out)
                &&& res == as_result(then_outcome(reported(before), out))
            };
        let front = choose|outs: Seq<Result<(), ErrorView>>|
            outcomes_fit(rules, value, field, outs) && before == as_result(failures(outs));
        lemma_reported_as_result(failures(front));
        let outs = front.push(out);
        assert(outs.drop_last() =~= front);
        assert forall|i: int| 0 <= i < all.len() implies fits(#[trigger] all[i], value, field, outs[i]) by {
            if i < rules.len() {
                assert(all[i] == rules[i]);
                assert(fits(rules[i], value, field, front[i]));
            }
        }
        assert(outcomes_fit(all, value, field, outs));
        assert(outs.last() == out);
        assert(failures(outs) == then_outcome(failures(front), out));
        assert(res == as_result(failures(outs)));
    }
}

/// A value present in the input is checked, whether or not the field is
/// optional: only absence exempts an optional field.
pub proof fn law_present_value_is_checked(rules: ValidationRules, data: Map<Seq<char>, Seq<char>>)
    requires
        data.contains_key(rules.field_view()),
    ensures
        value_for_spec(rules, data) == Some(data[rules.field_view()]),
{
}

/// Built-in checks report their errors under the field they check.
pub proof fn law_built_in_errors_name_their_field(rules: Seq<Rule>, value: Seq<char>, field: Seq<char>)
    requires
        forall|i: int| 0 <= i < rules.len() ==> built_in(#[trigger] rules[i]),
    ensures
        forall|i: int|
            0 <= i < failures(built_in_outcomes(rules, value, field)).len() ==> (#[trigger] failures(
                built_in_outcomes(rules, value, field),
            )[i]).field == field,
    decreases rules.len(),
{
    if rules.len() > 0 {
        let front = rules.drop_last();
        law_built_in_errors_name_their_field(front, value, field);
        let outs = built_in_outcomes(rules, value, field);
        assert(outs.drop_last() =~= built_in_outcomes(front, value, field));
        assert(built_in(rules.last()));
        assert(outs.last() == rule_verdict(rules.last(), value, field)->0);
    }
}

/// Setting a form entry, as `FormData::insert` and
/// `ValidationContext::with_data` do: the name reads as the value set, every
/// other name reads as before, and the number of names (`FormData::len`)
/// grows by one exactly when the name was new.
pub proof fn law_form_insert(before: FormData, after: FormData, key: Seq<char>, value: Seq<char>)
    requires
        after@ == before@.insert(key, value),
    ensures
        after@.contains_key(key),
        after@[key] == value,
        forall|other: Seq<char>|
            other != key ==> (#[trigger] after@.contains_key(other) == before@.contains_key(other)
                && (before@.contains_key(other) ==> after@[other] == before@[other])),
        after@.len() == before@.len() + (if before@.contains_key(key) {
            0int
        } else {
            1int
        }),
{
    broadcast use vstd::set::group_set_axioms;
    lemma_form_finite(before);
    assert(after@.dom() =~= before@.dom().insert(key));
}

/// Adding an error for `field` extends the errors listed for `field` by it,
/// and leaves the lists of other fields as they were.
pub proof fn law_field_errors_after_add(errors: Seq<ErrorView>, error: ErrorView, field: Seq<char>)
    ensures
        errors_for_field(errors.push(error), field) == (if error.field == field {
            errors_for_field(errors, field).push(error)
        } else {
            errors_for_field(errors, field)
        }),
{
    assert(errors.push(error).drop_last() =~= errors);
}

/// Whatever `IsAlpha` or `IsNumeric` accepts, `IsAlphanumeric` accepts.
pub proof fn law_letters_and_digits_are_alphanumeric(s: Seq<char>)
    ensures
        nonempty_run(s, CharClass::Letter) ==> nonempty_run(s, CharClass::LetterOrDigit),
        nonempty_run(s, CharClass::Digit) ==> nonempty_run(s, CharClass::LetterOrDigit),
{
}

/// Length bounds count characters and are inclusive: a value passes a
/// minimum and a maximum equal to its own character count, fails a minimum
/// of one character more, and fails a maximum of one character less.
pub proof fn law_length_bounds_count_characters(s: Seq<char>, field: Seq<char>)
    ensures
        max_length_verdict(s.len(), s, field) is Ok,
        min_length_verdict(s.len(), s, field) is Ok,
        min_length_verdict(s.len() + 1, s, field) is Err,
        s.len() > 0 ==> max_length_verdict((s.len() - 1) as nat, s, field) is Err,
{
}

/// `IsEmail` accepts no empty text.
pub proof fn law_email_is_never_empty(s: Seq<char>)
    ensures
        email_accepts(s) ==> s.len() > 0,
{
}

// ------------------------------------------------------- request bodies

/// What the pipe answers for a parsed value follows what the value's own
/// `validate` reports: an accepted body is the value itself, and `validate`
/// can pass it; a refused body carries errors that `validate` can report
/// for it.
pub proof fn law_pipe_answer_follows_validation<T: Validate>(value: T, r: Result<T, PipeRejection>)
    requires
        validated_answer(value, r),
    ensures
        r matches Ok(v) ==> v == value && call_ensures(
            T::validate,
            (&value,),
            Ok::<(), Vec<ValidationError>>(()),
        ),
        r matches Err(rejection) ==> rejection matches PipeRejection::Invalid(errors)
            && call_ensures(T::validate, (&value,), Err::<(), Vec<ValidationError>>(errors)),
{
    let verdict = choose|verdict: Result<(), Vec<ValidationError>>|
        call_ensures(T::validate, (&value,), verdict) && r == decision(value, verdict);
    match verdict {
        Ok(()) => {
            assert(verdict->Ok_0 == ());
            assert(verdict =~= Ok::<(), Vec<ValidationError>>(()));
        },
        Err(errors) => {},
    }
}

/// A value whose validation reports `errors` is refused, with exactly those
/// errors: a single error refuses a body as surely as several do.
pub proof fn law_pipe_refuses_failing_values<T: Validate>(
    value: T,
    errors: Vec<ValidationError>,
    r: Result<T, PipeRejection>,
)
    requires
        validated_answer(value, r),
        forall|verdict: Result<(), Vec<ValidationError>>|
            call_ensures(T::validate, (&value,), verdict) ==> verdict == Err::<
                (),
                Vec<ValidationError>,
            >(errors),
    ensures
        r == Err::<T, PipeRejection>(PipeRejection::Invalid(errors)),
{
}

// ----------------------------------------------------------------- emails

/// `IsEmail` accepts every address made of a non-empty local part of ASCII
/// letters, digits and `.`, `_`, `%`, `+`, `-`; an `@`; a non-empty domain
/// of ASCII letters, digits, `.` and `-`; a `.`; and a top-level label of
/// two or more ASCII letters, however long.
pub proof fn law_email_accepts_well_formed_addresses(
    local: Seq<char>,
    domain: Seq<char>,
    label: Seq<char>,
)
    requires
        local.len() > 0,
        forall|i: int|
            0 <= i < local.len() ==> {
                let c = #[trigger] local[i];
                ||| 'a' <= c && c <= 'z'
                ||| 'A' <= c && c <= 'Z'
                ||| '0' <= c && c <= '9'
                ||| c == '.' || c == '_' || c == '%' || c == '+' || c == '-'
            },
        domain.len() > 0,
        forall|i: int|
            0 <= i < domain.len() ==> {
                let c = #[trigger] domain[i];
                ||| 'a' <= c && c <= 'z'
                ||| 'A' <= c && c <= 'Z'
                ||| '0' <= c && c <= '9'
                ||| c == '.' || c == '-'
            },
        label.len() >= 2,
        forall|i: int|
            0 <= i < label.len() ==> {
                let c = #[trigger] label[i];
                ||| 'a' <= c && c <= 'z'
                ||| 'A' <= c && c <= 'Z'
            },
    ensures
        email_accepts(local + seq!['@'] + domain + seq!['.'] + label),
{
    let s = local + seq!['@'] + domain + seq!['.'] + label;
    let at = local.len() as int;
    let dot = at + 1 + domain.len();
    assert forall|i: int| 0 <= i < at implies class_has(CharClass::EmailLocal, #[trigger] s[i]) by {
        assert(s[i] == local[i]);
    }
    assert forall|i: int| at + 1 <= i < dot implies class_has(
        CharClass::EmailDomain,
        #[trigger] s[i],
    ) by {
        assert(s[i] == domain[i - at - 1]);
    }
    assert forall|i: int| dot + 1 <= i < s.len() implies class_has(
        CharClass::Letter,
        #[trigger] s[i],
    ) by {
        assert(s[i] == label[i - dot - 1]);
    }
    assert(s[at] == '@');
    assert(s[dot] == '.');
    assert(email_split(s, at, dot));
}

/// An accepted address stays accepted when one more ASCII letter is added
/// to its top-level label: no length of label is too long.
pub proof fn law_email_label_has_no_upper_bound(s: Seq<char>, c: char)
    requires
        email_accepts(s),
        ('a' <= c && c <= 'z') || ('A' <= c && c <= 'Z'),
    ensures
        email_accepts(s.push(c)),
{
    let (at, dot) = choose|at: int, dot: int| email_split(s, at, dot);
    let t = s.push(c);
    assert forall|i: int| 0 <= i < at implies class_has(CharClass::EmailLocal, #[trigger] t[i]) by {
        assert(t[i] == s[i]);
    }
    assert forall|i: int| at + 1 <= i < dot implies class_has(
        CharClass::EmailDomain,
        #[trigger] t[i],
    ) by {
        assert(t[i] == s[i]);
    }
    assert forall|i: int| dot + 1 <= i < t.len() implies class_has(
        CharClass::Letter,
        #[trigger] t[i],
    ) by {
        if i < s.len() {
            assert(t[i] == s[i]);
        }
    }
    assert(t[at] == s[at]);
    assert(t[dot] == s[dot]);
    assert(email_split(t, at, dot));
}

/// What `IsEmail` accepts holds exactly one `@`, not first; before it only
/// ASCII letters, digits and `.`, `_`, `%`, `+`, `-`, and after it only
/// ASCII letters, digits, `.` and `-`. It is at least six characters long
/// and ends in an ASCII letter.
pub proof fn law_email_accepts_only_plain_addresses(s: Seq<char>)
    requires
        email_accepts(s),
    ensures
        s.len() >= 6,
        ('a' <= s.last() && s.last() <= 'z') || ('A' <= s.last() && s.last() <= 'Z'),
        exists|at: int|
            {
                &&& 0 < at < s.len()
                &&& s[at] == '@'
                &&& forall|i: int|
                    0 <= i < at ==> {
                        let c = #[trigger] s[i];
                        ||| 'a' <= c && c <= 'z'
                        ||| 'A' <= c && c <= 'Z'
                        ||| '0' <= c && c <= '9'
                        ||| c == '.' || c == '_' || c == '%' || c == '+' || c == '-'
                    }
                &&& forall|i: int|
                    at < i < s.len() ==> {
                        let c = #[trigger] s[i];
                        ||| 'a' <= c && c <= 'z'
                        ||| 'A' <= c && c <= 'Z'
                        ||| '0' <= c && c <= '9'
                        ||| c == '.' || c == '-'
                    }
            },
{
    let (at, dot) = choose|at: int, dot: int| email_split(s, at, dot);
    assert(class_has(CharClass::Letter, s[s.len() - 1]));
    assert forall|i: int| at < i < s.len() implies {
        let c = #[trigger] s[i];
        ||| 'a' <= c && c <= 'z'
        ||| 'A' <= c && c <= 'Z'
        ||| '0' <= c && c <= '9'
        ||| c == '.' || c == '-'
    } by {
        if i < dot {
            assert(class_has(CharClass::EmailDomain, s[i]));
        } else if i > dot {
            assert(class_has(CharClass::Letter, s[i]));
        }
    }
    assert forall|i: int| 0 <= i < at implies {
        let c = #[trigger] s[i];
        ||| 'a' <= c && c <= 'z'
        ||| 'A' <= c && c <= 'Z'
        ||| '0' <= c && c <= '9'
        ||| c == '.' || c == '_' || c == '%' || c == '+' || c == '-'
    } by {
        assert(class_has(CharClass::EmailLocal, s[i]));
    }
}

// ------------------------------------------------------------------ UUIDs

/// Whether `a` and `b` are the same character up to the case of an ASCII
/// letter.
pub open spec fn same_up_to_case(a: char, b: char) -> bool {
    ||| a == b
    ||| 'A' <= a && a <= 'Z' && b as int == a as int + 32
    ||| 'A' <= b && b <= 'Z' && a as int == b as int + 32
}

/// `IsUuid` accepts every hyphenated UUID of hexadecimal digits, in either
/// case, whose version digit (position 14) is `1` to `8` and whose variant
/// digit (position 19) is `8`, `9`, `a` or `b`, in either case.
pub proof fn law_uuid_accepts_versioned_uuids(s: Seq<char>)
    requires
        s.len() == 36,
        s[8] == '-' && s[13] == '-' && s[18] == '-' && s[23] == '-',
        forall|i: int|
            0 <= i < 36 && i != 8 && i != 13 && i != 18 && i != 23 ==> {
                let c = #[trigger] s[i];
                ||| '0' <= c && c <= '9'
                ||| 'a' <= c && c <= 'f'
                ||| 'A' <= c && c <= 'F'
            },
        '1' <= s[14] && s[14] <= '8',
        s[19] == '8' || s[19] == '9' || s[19] == 'a' || s[19] == 'b' || s[19] == 'A' || s[19]
            == 'B',
    ensures
        uuid_accepts(s),
{
    assert forall|i: int|
        0 <= i < 36 && i != 8 && i != 13 && i != 18 && i != 23 implies class_has(
        CharClass::Hex,
        #[trigger] s[i],
    ) by {}
}

/// `IsUuid` ignores case: two texts that differ only in the case of ASCII
/// letters are both accepted or both refused.
pub proof fn law_uuid_ignores_case(s: Seq<char>, t: Seq<char>)
    requires
        s.len() == t.len(),
        forall|i: int| 0 <= i < s.len() ==> same_up_to_case(#[trigger] s[i], t[i]),
    ensures
        uuid_accepts(s) == uuid_accepts(t),
{
    if s.len() == 36 {
        assert forall|i: int| #![trigger s[i]] #![trigger t[i]] 0 <= i < 36 implies {
            &&& (s[i] == '-' <==> t[i] == '-')
            &&& (class_has(CharClass::Hex, s[i]) <==> class_has(CharClass::Hex, t[i]))
            &&& (class_has(CharClass::Zero, s[i]) <==> class_has(CharClass::Zero, t[i]))
            &&& (class_has(CharClass::MaxNibble, s[i]) <==> class_has(CharClass::MaxNibble, t[i]))
            &&& ('1' <= s[i] && s[i] <= '8' <==> '1' <= t[i] && t[i] <= '8')
            &&& (s[i] == '8' || s[i] == '9' || s[i] == 'a' || s[i] == 'b' || s[i] == 'A' || s[i]
                == 'B' <==> t[i] == '8' || t[i] == '9' || t[i] == 'a' || t[i] == 'b' || t[i]
                == 'A' || t[i] == 'B')
        } by {
            assert(same_up_to_case(s[i], t[i]));
        }
    }
}

// ------------------------------------------------------------------- URLs

/// `IsUrl` accepts a text exactly when it parses as an `http` or `https`
/// URL and holds no character from U+0000 to U+0020 (the C0 controls and the
/// space) or from U+007F to U+009F (DEL and the C1 controls). Every other
/// character, `?`, `#`, `&`, `=` and `%` among them, is let through.
pub proof fn law_url_refuses_only_controls_and_spaces(s: Seq<char>)
    ensures
        url_accepts(s) <==> {
            &&& parsed_url_scheme(s) == Some("http"@) || parsed_url_scheme(s) == Some("https"@)
            &&& forall|i: int|
                0 <= i < s.len() ==> !(#[trigger] s[i] <= ' ' || ('\u{7f}' <= s[i] && s[i]
                    <= '\u{9f}'))
        },
{
}

// ------------------------------------------------------- character classes

/// `IsAlpha` accepts exactly the non-empty texts of ASCII letters.
pub proof fn law_alpha_is_ascii_letters(s: Seq<char>)
    ensures
        nonempty_run(s, CharClass::Letter) <==> s.len() > 0 && forall|i: int|
            0 <= i < s.len() ==> {
                let c = #[trigger] s[i];
                ||| 'a' <= c && c <= 'z'
                ||| 'A' <= c && c <= 'Z'
            },
{
}

/// `IsNumeric` accepts exactly the non-empty texts of ASCII digits.
pub proof fn law_numeric_is_ascii_digits(s: Seq<char>)
    ensures
        nonempty_run(s, CharClass::Digit) <==> s.len() > 0 && forall|i: int|
            0 <= i < s.len() ==> '0' <= #[trigger] s[i] && s[i] <= '9',
{
}

/// `IsAlphanumeric` accepts exactly the non-empty texts of ASCII letters
/// and digits: `_`, `-`, white space, punctuation and non-ASCII letters are
/// all refused.
pub proof fn law_alphanumeric_is_ascii_letters_and_digits(s: Seq<char>)
    ensures
        nonempty_run(s, CharClass::LetterOrDigit) <==> s.len() > 0 && forall|i: int|
            0 <= i < s.len() ==> {
                let c = #[trigger] s[i];
                ||| 'a' <= c && c <= 'z'
                ||| 'A' <= c && c <= 'Z'
                ||| '0' <= c && c <= '9'
            },
{
}

/// A text passes `IsAlphanumeric` exactly when it is non-empty and each of
/// its characters, taken alone, passes `IsAlpha` or `IsNumeric`.
pub proof fn law_alphanumeric_is_alpha_or_numeric_per_character(s: Seq<char>)
    ensures
        nonempty_run(s, CharClass::LetterOrDigit) <==> s.len() > 0 && forall|i: int|
            0 <= i < s.len() ==> nonempty_run(seq![#[trigger] s[i]], CharClass::Letter)
                || nonempty_run(seq![s[i]], CharClass::Digit),
{
    assert forall|i: int| 0 <= i < s.len() implies (nonempty_run(
        seq![#[trigger] s[i]],
        CharClass::Letter,
    ) || nonempty_run(seq![s[i]], CharClass::Digit)) <==> class_has(
        CharClass::LetterOrDigit,
        s[i],
    ) by {
        assert(seq![s[i]][0] == s[i]);
    }
}

/// `IsUuid` accepts only UUID text: 36 characters with `-` at positions 8,
/// 13, 18 and 23 and hexadecimal digits elsewhere, and either a version
/// digit `1` to `8` with a variant digit `8`, `9`, `a` or `b` (either case),
/// or the nil UUID (all `0`), or the max UUID (all `f`, either case).
pub proof fn law_uuid_accepts_only_uuids(s: Seq<char>)
    requires
        uuid_accepts(s),
    ensures
        s.len() == 36,
        s[8] == '-' && s[13] == '-' && s[18] == '-' && s[23] == '-',
        forall|i: int|
            0 <= i < 36 && i != 8 && i != 13 && i != 18 && i != 23 ==> {
                let c = #[trigger] s[i];
                ||| '0' <= c && c <= '9'
                ||| 'a' <= c && c <= 'f'
                ||| 'A' <= c && c <= 'F'
            },
        ('1' <= s[14] && s[14] <= '8' && (s[19] == '8' || s[19] == '9' || s[19] == 'a' || s[19]
            == 'b' || s[19] == 'A' || s[19] == 'B')) || (forall|i: int|
            0 <= i < 36 && i != 8 && i != 13 && i != 18 && i != 23 ==> #[trigger] s[i] == '0')
            || (forall|i: int|
            0 <= i < 36 && i != 8 && i != 13 && i != 18 && i != 23 ==> #[trigger] s[i] == 'f'
                || s[i] == 'F'),
{
    assert forall|i: int| 0 <= i < 36 && i != 8 && i != 13 && i != 18 && i != 23 implies class_has(
        CharClass::Hex,
        #[trigger] s[i],
    ) by {
        if i < 8 {
        } else if i < 13 {
        } else if i < 18 {
        } else if i < 23 {
        } else {
        }
    }
    if uuid_groups(s, CharClass::Zero) {
        assert forall|i: int| 0 <= i < 36 && i != 8 && i != 13 && i != 18 && i != 23 implies #[trigger] s[i] == '0' by {
            assert(class_has(CharClass::Zero, s[i]));
        }
    }
    if uuid_groups(s, CharClass::MaxNibble) {
        assert forall|i: int| 0 <= i < 36 && i != 8 && i != 13 && i != 18 && i != 23 implies #[trigger] s[i] == 'f' || s[i] == 'F' by {
            assert(class_has(CharClass::MaxNibble, s[i]));
        }
    }
}

// --------------------------------------------------------- required values

/// `NotEmpty` accepts any text holding a printable ASCII character other
/// than the space (`!` to `~`), and refuses every text made only of spaces,
/// tabs, line feeds, vertical tabs, form feeds and carriage returns, the
/// empty text among them.
pub proof fn law_not_empty_looks_past_white_space(s: Seq<char>, field: Seq<char>)
    ensures
        (exists|i: int| 0 <= i < s.len() && '!' <= #[trigger] s[i] && s[i] <= '~')
            ==> not_empty_verdict(s, field) is Ok,
        (forall|i: int|
            0 <= i < s.len() ==> #[trigger] s[i] == ' ' || s[i] == '\t' || s[i] == '\n' || s[i]
                == '\u{b}' || s[i] == '\u{c}' || s[i] == '\r') ==> not_empty_verdict(s, field) is Err,
{
    if exists|i: int| 0 <= i < s.len() && '!' <= #[trigger] s[i] && s[i] <= '~' {
        let i = choose|i: int| 0 <= i < s.len() && '!' <= #[trigger] s[i] && s[i] <= '~';
        assert(!white_space(s[i]));
    }
}

} // verus!
