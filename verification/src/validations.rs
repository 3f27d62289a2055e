//! Field validation: verdicts, validators, and a model validator that runs
//! the validators of several fields and collects what failed.

use vstd::prelude::*;
use vstd::std_specs::cmp::PartialEqSpec;
use vstd::string::StringExecFns;
use std::rc::Rc;
use crate::forms::storage::FormStorage;
use crate::validations::combinators::{AndValidation, OrValidation};
use crate::validations::present::{AbsentValidation, PresentValidation, Presentable};

pub mod combinators;
pub mod present;

verus! {

/// Why a value failed validation.
#[derive(Debug, Clone, Copy)]
pub enum ValidationError {
    NotPresent,
    NotAbsent,
    /// The input's text did not convert to a value.
    InvalidValue,
    /// A failure described by the caller's own message.
    Custom(&'static str),
}

impl ValidationError {
    /// The message of each failure.
    pub open spec fn message_spec(self) -> Seq<char> {
        match self {
            ValidationError::NotPresent => "is required"@,
            ValidationError::NotAbsent => "should be blank"@,
            ValidationError::InvalidValue => "invalid value"@,
            ValidationError::Custom(m) => "custom error: "@ + m@,
        }
    }

    /// The failure in words.
    pub fn message(&self) -> (text: String)
        ensures
            text@ == self.message_spec(),
    {
        match self {
            ValidationError::NotPresent => "is required".to_owned(),
            ValidationError::NotAbsent => "should be blank".to_owned(),
            ValidationError::InvalidValue => "invalid value".to_owned(),
            ValidationError::Custom(m) => "custom error: ".to_owned().concat(m),
        }
    }
}

/// Something that can be asked whether it is valid.
pub trait Validator: std::fmt::Debug {
    /// The verdict that [`validate`](Self::validate) returns.
    spec fn outcome(&self) -> Result<(), ValidationError>;

    /// Passes, or says why not.
    fn validate(&self) -> (verdict: Result<(), ValidationError>)
        ensures
            verdict == self.outcome(),
    ;
}

/// Joining validators: both must pass, or one of the two.
pub trait ValidatorCombinators: Sized + Validator {
    /// A validator that passes when `self` and `other` both pass.
    fn and<U: Validator>(self, other: U) -> (both: AndValidation<Self, U>)
        ensures
            both.left == self,
            both.right == other,
    {
        AndValidation { left: self, right: other }
    }

    /// A validator that passes when `self` or `other` passes.
    fn or<U: Validator>(self, other: U) -> (either: OrValidation<Self, U>)
        ensures
            either.left == self,
            either.right == other,
    {
        OrValidation { left: self, right: other }
    }
}

impl<T> ValidatorCombinators for T where T: Validator {

}

/// A value that can be put behind a validation: a plain value, or a storage
/// that already holds one.
pub trait ValidatableStorage<T> where T: Clone + Default + PartialEq + std::fmt::Debug {
    /// Whether `storage` is the storage that `self` stands for.
    spec fn stores(&self, storage: FormStorage<T>) -> bool;

    /// The storage that a validation of `self` reads.
    fn as_form_storage(&self) -> (storage: FormStorage<T>)
        ensures
            self.stores(storage),
    ;
}

impl<T> ValidatableStorage<T> for T where T: Clone + Default + PartialEq + std::fmt::Debug {
    /// A plain value stands for a fresh storage of a copy of it.
    open spec fn stores(&self, storage: FormStorage<T>) -> bool {
        cloned(*self, storage.current()) && !storage.is_dirty() && !storage.is_invalid()
    }

    fn as_form_storage(&self) -> (storage: FormStorage<T>) {
        FormStorage::new(self.clone())
    }
}

impl<T> ValidatableStorage<T> for FormStorage<T> where T: Clone + Default + PartialEq + std::fmt::Debug {
    /// A storage stands for a copy of itself.
    open spec fn stores(&self, storage: FormStorage<T>) -> bool {
        cloned(self.current(), storage.current()) && storage.is_dirty() == self.is_dirty()
            && storage.is_invalid() == self.is_invalid()
    }

    fn as_form_storage(&self) -> (storage: FormStorage<T>) {
        self.duplicate()
    }
}

/// Values that can be required to be present or to be absent.
pub trait Validatable<T> where T: Clone + Default + PartialEq + std::fmt::Debug {
    /// A validation that passes when the value is present.
    fn is_present(&self) -> PresentValidation<T>;

    /// A validation that passes when the value is absent.
    fn is_absent(&self) -> AbsentValidation<T>;
}

impl<T, S> Validatable<T> for S where T: Presentable + Clone + std::fmt::Debug, S: ValidatableStorage<T> {
    fn is_present(&self) -> (validation: PresentValidation<T>)
        ensures
            self.stores(validation.value),
    {
        PresentValidation { value: self.as_form_storage() }
    }

    fn is_absent(&self) -> (validation: AbsentValidation<T>)
        ensures
            self.stores(validation.value),
    {
        AbsentValidation { value: self.as_form_storage() }
    }
}

/// A value together with the field that it belongs to.
#[derive(Debug)]
pub struct Feild<F, V> where F: Copy + std::fmt::Debug, V: std::fmt::Debug {
    field: F,
    value: V,
}

/// The mathematical value of a [`FieldError`].
pub struct FieldErrorView<F> {
    pub fields: Seq<F>,
    pub error: ValidationError,
}

/// A failed validation and the fields that it concerns.
#[derive(Debug)]
pub struct FieldError<F> where F: Copy + std::fmt::Debug {
    /// The fields, in the order they were named.
    pub fields: Vec<F>,
    pub error: ValidationError,
}

impl<F> View for FieldError<F> where F: Copy + std::fmt::Debug {
    type V = FieldErrorView<F>;

    open spec fn view(&self) -> FieldErrorView<F> {
        FieldErrorView { fields: self.fields@, error: self.error }
    }
}

impl<F> FieldError<F> where F: Copy + std::fmt::Debug {
    /// The field that the failure is shown at: the first one named.
    pub fn primary_field(&self) -> (field: F)
        requires
            self.fields@.len() > 0,
        ensures
            field == self.fields@[0],
    {
        self.fields[0]
    }
}

/// The failures of one run of a model validator, in the order of its rules.
#[derive(Debug)]
pub struct ErrorSet<F> where F: Copy + std::fmt::Debug {
    errors: Vec<FieldError<F>>,
}

impl<F> View for ErrorSet<F> where F: Copy + std::fmt::Debug {
    type V = Seq<FieldErrorView<F>>;

    closed spec fn view(&self) -> Seq<FieldErrorView<F>> {
        self.errors@.map_values(|e: FieldError<F>| e@)
    }
}

impl<F> ErrorSet<F> where F: Copy + std::fmt::Debug {
    /// The failures, in the order of the rules that raised them.
    pub fn errors(&self) -> (errors: &Vec<FieldError<F>>)
        ensures
            errors@.map_values(|e: FieldError<F>| e@) == self@,
    {
        &self.errors
    }
}

/// The mathematical value of one rule of a model validator.
pub struct RuleView<F> {
    /// The fields that a failure of the rule concerns.
    pub fields: Seq<F>,
    /// The message that replaces the validator's own failure, if any.
    pub message: Option<&'static str>,
    /// The verdict of the rule's validator.
    pub outcome: Result<(), ValidationError>,
}

/// The failure that a rule raises, if its validator fails: the validator's
/// own, or a custom failure with the rule's message where it has one.
pub open spec fn failure_of<F>(rule: RuleView<F>) -> Option<FieldErrorView<F>> {
    match rule.outcome {
        Ok(_) => None,
        Err(e) => Some(
            FieldErrorView {
                fields: rule.fields,
                error: match rule.message {
                    Some(m) => ValidationError::Custom(m),
                    None => e,
                },
            },
        ),
    }
}

/// The failures of the rules that fail, in the order of the rules.
pub open spec fn failures<F>(rules: Seq<RuleView<F>>) -> Seq<FieldErrorView<F>>
    decreases rules.len(),
{
    if rules.len() == 0 {
        Seq::empty()
    } else {
        match failure_of(rules.last()) {
            Some(failure) => failures(rules.drop_last()).push(failure),
            None => failures(rules.drop_last()),
        }
    }
}

/// There are no failures exactly when every rule passes, and at most one
/// failure for each rule.
pub proof fn lemma_no_failures_iff_all_pass<F>(rules: Seq<RuleView<F>>)
    ensures
        failures(rules).len() == 0 <==> forall|i: int| 0 <= i < rules.len() ==> (#[trigger] rules[i]).outcome is Ok,
        failures(rules).len() <= rules.len(),
    decreases rules.len(),
{
    if rules.len() > 0 {
        let earlier = rules.drop_last();
        lemma_no_failures_iff_all_pass(earlier);
        if failures(rules).len() == 0 {
            assert forall|i: int| 0 <= i < rules.len() implies (#[trigger] rules[i]).outcome is Ok by {
                if i < earlier.len() {
                    assert(earlier[i] == rules[i]);
                }
            }
        }
        if forall|i: int| 0 <= i < rules.len() ==> (#[trigger] rules[i]).outcome is Ok {
            assert(rules.last() == rules[rules.len() - 1]);
            assert forall|i: int| 0 <= i < earlier.len() implies (#[trigger] earlier[i]).outcome is Ok by {
                assert(earlier[i] == rules[i]);
            }
        }
    }
}

struct FieldValidator<F> where F: std::fmt::Debug + std::hash::Hash + std::cmp::Eq {
    error_message: Option<&'static str>,
    fields: Vec<F>,
    verdict: Result<(), ValidationError>,
}

impl<F> View for FieldValidator<F> where F: std::fmt::Debug + std::hash::Hash + std::cmp::Eq {
    type V = RuleView<F>;

    closed spec fn view(&self) -> RuleView<F> {
        RuleView { fields: self.fields@, message: self.error_message, outcome: self.verdict }
    }
}

/// A list of rules, each the verdict of a validator with the fields that it
/// speaks for. A validator is asked once, when its rule is added.
pub struct ModelValidator<F> where F: std::fmt::Debug + std::hash::Hash + std::cmp::Eq {
    validations: Vec<FieldValidator<F>>,
}

impl<F> Default for ModelValidator<F> where F: std::fmt::Debug + std::hash::Hash + std::cmp::Eq {
    /// A model validator without rules.
    fn default() -> (model: Self)
        ensures
            model.rules() == Seq::<RuleView<F>>::empty(),
    {
        let model = Self { validations: Vec::new() };
        proof {
            assert(model.rules() =~= Seq::<RuleView<F>>::empty());
        }
        model
    }
}

impl<F> ModelValidator<F> where F: std::fmt::Debug + std::hash::Hash + std::cmp::Eq {
    /// The rules, in the order they were added.
    pub closed spec fn rules(&self) -> Seq<RuleView<F>> {
        self.validations@.map_values(|v: FieldValidator<F>| v@)
    }
}

impl<F> ModelValidator<F> where F: Copy + std::fmt::Debug + std::hash::Hash + std::cmp::Eq {
    fn with_rule(self, rule: FieldValidator<F>) -> (model: Self)
        ensures
            model.rules() == self.rules().push(rule@),
    {
        let mut model = self;
        model.validations.push(rule);
        proof {
            assert(model.rules() =~= self.rules().push(rule@));
        }
        model
    }

    /// Adds a rule for one field; a failure of `validator` is reported as it is.
    pub fn with_field<V: Validator + 'static>(self, field: F, validator: V) -> (model: Self)
        ensures
            model.rules() == self.rules().push(
                RuleView { fields: seq![field], message: None, outcome: validator.outcome() },
            ),
    {
        let mut fields: Vec<F> = Vec::new();
        fields.push(field);
        proof {
            assert(fields@ =~= seq![field]);
        }
        self.with_rule(FieldValidator { fields, verdict: validator.validate(), error_message: None })
    }

    /// Adds a rule for one field; a failure of `validator` is reported as a
    /// custom failure with `message`.
    pub fn with_custom<V: Validator + 'static>(self, field: F, validator: V, message: &'static str) -> (model:
        Self)
        ensures
            model.rules() == self.rules().push(
                RuleView { fields: seq![field], message: Some(message), outcome: validator.outcome() },
            ),
    {
        let mut fields: Vec<F> = Vec::new();
        fields.push(field);
        proof {
            assert(fields@ =~= seq![field]);
        }
        self.with_rule(
            FieldValidator { fields, verdict: validator.validate(), error_message: Some(message) },
        )
    }

    /// Adds a rule for several fields; a failure of `validator` is reported
    /// as a custom failure with `error_message`. A field that is named more
    /// than once counts once, where it is named first.
    pub fn with_fields<V: Validator + 'static>(self, fields: Vec<F>, validator: V, error_message: &'static str) -> (model:
        Self)
        ensures
            model.rules().len() == self.rules().len() + 1,
            model.rules().drop_last() == self.rules(),
            model.rules().last().message == Some(error_message),
            model.rules().last().outcome == validator.outcome(),
            F::obeys_eq_spec() ==> model.rules().last().fields == distinct(fields@),
    {
        let rule = FieldValidator {
            fields: distinct_fields(&fields),
            verdict: validator.validate(),
            error_message: Some(error_message),
        };
        let model = self.with_rule(rule);
        proof {
            assert(model.rules().drop_last() =~= self.rules());
        }
        model
    }

    /// Collects the failures of the rules that failed, in the order of the
    /// rules; `None` when every rule passed.
    pub fn validate(self) -> (found: Option<Rc<ErrorSet<F>>>)
        ensures
            match found {
                Some(set) => (*set)@ == failures(self.rules()) && failures(self.rules()).len() > 0,
                None => failures(self.rules()).len() == 0,
            },
    {
        let mut errors: Vec<FieldError<F>> = Vec::new();
        let mut i: usize = 0;
        proof {
            assert(self.rules().take(0) =~= Seq::<RuleView<F>>::empty());
        }
        while i < self.validations.len()
            invariant
                i <= self.validations.len(),
                errors@.map_values(|e: FieldError<F>| e@) == failures(self.rules().take(i as int)),
            decreases self.validations.len() - i,
        {
            let validation = &self.validations[i];
            let ghost before = errors@.map_values(|e: FieldError<F>| e@);
            proof {
                assert(self.rules().take(i + 1).drop_last() =~= self.rules().take(i as int));
                assert(self.rules().take(i + 1).last() == validation@);
            }
            match validation.verdict {
                Err(error) => {
                    let failure = FieldError {
                        fields: copy_fields(&validation.fields),
                        error: match validation.error_message {
                            Some(m) => ValidationError::Custom(m),
                            None => error,
                        },
                    };
                    errors.push(failure);
                    proof {
                        assert(errors@.map_values(|e: FieldError<F>| e@) =~= before.push(failure@));
                    }
                },
                Ok(_) => {},
            }
            i += 1;
        }
        proof {
            assert(self.rules().take(i as int) =~= self.rules());
        }
        if errors.len() > 0 {
            Some(Rc::new(ErrorSet { errors }))
        } else {
            None
        }
    }
}

/// The fields of a list without repetitions: each field stays where it
/// first occurs.
pub open spec fn distinct<F: PartialEq>(fields: Seq<F>) -> Seq<F>
    decreases fields.len(),
{
    if fields.len() == 0 {
        Seq::empty()
    } else {
        let earlier = distinct(fields.drop_last());
        if occurs(earlier, fields.last()) {
            earlier
        } else {
            earlier.push(fields.last())
        }
    }
}

/// Whether some field of the list compares equal to `field`.
pub open spec fn occurs<F: PartialEq>(fields: Seq<F>, field: F) -> bool {
    exists|k: int| 0 <= k < fields.len() && #[trigger] fields[k].eq_spec(&field)
}

/// The fields of `fields` without repetitions.
fn distinct_fields<F: Copy + PartialEq>(fields: &Vec<F>) -> (kept: Vec<F>)
    ensures
        F::obeys_eq_spec() ==> kept@ == distinct(fields@),
{
    let mut kept: Vec<F> = Vec::new();
    let mut i: usize = 0;
    while i < fields.len()
        invariant
            i <= fields.len(),
            F::obeys_eq_spec() ==> kept@ == distinct(fields@.take(i as int)),
        decreases fields.len() - i,
    {
        let field = fields[i];
        let mut seen = false;
        let mut j: usize = 0;
        while j < kept.len()
            invariant
                j <= kept.len(),
                F::obeys_eq_spec() ==> (seen <==> occurs(kept@.take(j as int), field)),
            decreases kept.len() - j,
        {
            let same = kept[j] == field;
            proof {
                if F::obeys_eq_spec() {
                    let shorter = kept@.take(j as int);
                    let longer = kept@.take(j + 1);
                    assert(longer.drop_last() =~= shorter);
                    assert(longer.last() == kept@[j as int]);
                    if occurs(longer, field) {
                        let k = choose|k: int| 0 <= k < longer.len() && #[trigger] longer[k].eq_spec(&field);
                        if k < j {
                            assert(shorter[k].eq_spec(&field));
                        }
                    }
                    if occurs(shorter, field) {
                        let k = choose|k: int| 0 <= k < shorter.len() && #[trigger] shorter[k].eq_spec(&field);
                        assert(longer[k].eq_spec(&field));
                    }
                    if same {
                        assert(longer[j as int].eq_spec(&field));
                    }
                }
            }
            if same {
                seen = true;
            }
            j += 1;
        }
        proof {
            assert(kept@.take(j as int) =~= kept@);
            assert(fields@.take(i + 1).drop_last() =~= fields@.take(i as int));
            assert(fields@.take(i + 1).last() == field);
        }
        if !seen {
            kept.push(field);
        }
        i += 1;
    }
    proof {
        assert(fields@.take(i as int) =~= fields@);
    }
    kept
}

/// A copy of a list of fields.
fn copy_fields<F: Copy>(fields: &Vec<F>) -> (copy: Vec<F>)
    ensures
        copy@ == fields@,
{
    let mut copy: Vec<F> = Vec::new();
    let mut i: usize = 0;
    while i < fields.len()
        invariant
            i <= fields.len(),
            copy@ == fields@.take(i as int),
        decreases fields.len() - i,
    {
        copy.push(fields[i]);
        proof {
            assert(fields@.take(i + 1) =~= fields@.take(i as int).push(fields@[i as int]));
        }
        i += 1;
    }
    proof {
        assert(fields@.take(i as int) =~= fields@);
    }
    copy
}

} // verus!
