//! A lightweight and versatile toolbox for implementing semantic validation.
//!
//! Values that are correct by their type are checked against the rules of their
//! domain. A validation collects every invalidity that it detects in a
//! [`context::Context`] and reports all of them at once, those of nested values
//! wrapped into the invalidities of the value that holds them.

use vstd::prelude::*;

/// Invalidity context
pub mod context;

/// The crate's prelude
pub mod prelude;

/// Traits for values that are collected or accumulated
pub mod util;

use crate::context::Context;
use crate::util::UnitResult;

verus! {

/// Result of a validation
///
/// The result is `Ok` and empty if the validation succeeded. It is
/// a validation context wrapped into `Err` that carries one or more
/// invalidities.
pub type ValidationResult<V> = UnitResult<Context<V>>;

/// Invalidities that cause validation failures
pub trait Invalidity: core::fmt::Debug {}

impl<V> Invalidity for V where V: core::fmt::Debug {}

/// The invalidities that a validation result carries, in order.
pub open spec fn invalidities_of<V: Invalidity>(res: ValidationResult<V>) -> Seq<V> {
    match res {
        Ok(_) => Seq::empty(),
        Err(context) => context@,
    }
}

/// Whether `res` is the outcome of a validation that found exactly `invalidities`.
pub open spec fn reports<V: Invalidity>(res: ValidationResult<V>, invalidities: Seq<V>) -> bool {
    match res {
        Ok(_) => invalidities.len() == 0,
        Err(context) => invalidities.len() > 0 && context@ == invalidities,
    }
}

/// A trait for validating types
///
/// Validation is expected to be an expensive operation that should
/// only be invoked when crossing boundaries between independent
/// components.
pub trait Validate {
    /// Invalidity objectives
    type Invalidity: Invalidity;

    /// Whether `validate` reports exactly the `invalidities` of every value.
    ///
    /// An implementation that defines `invalidities` says so here. Of any other
    /// implementation nothing is known but that a failure carries an invalidity.
    open spec fn obeys_validate_spec() -> bool {
        false
    }

    /// Everything that is invalid about the value, in the order of detection.
    ///
    /// It has a meaning only where `obeys_validate_spec` holds.
    open spec fn invalidities(&self) -> Seq<Self::Invalidity> {
        Seq::empty()
    }

    /// Perform the validation
    ///
    /// Returns `Err` with the collected invalidities if one or more
    /// validations failed. A failure carries at least one invalidity.
    fn validate(&self) -> (res: ValidationResult<Self::Invalidity>)
        ensures
            res matches Err(context) ==> context@.len() > 0,
            Self::obeys_validate_spec() ==> reports(res, self.invalidities()),
    ;
}

/// Whether `res` is a result of validating `value`.
pub open spec fn validates_to<T: Validate + ?Sized>(
    value: &T,
    res: ValidationResult<T::Invalidity>,
) -> bool {
    call_ensures(T::validate, (value,), res)
}

/// Whether the validation of `value` reports exactly the `invalidities` of `value`.
pub open spec fn obeys_spec<T: Validate + ?Sized>(value: &T) -> bool {
    T::obeys_validate_spec()
}

/// Whether validating `value` can succeed.
pub open spec fn can_pass<T: Validate + ?Sized>(value: &T) -> bool {
    validates_to(value, Ok(()))
}

/// Whether validating `value` can fail.
pub open spec fn can_fail<T: Validate + ?Sized>(value: &T) -> bool {
    exists|context: Context<T::Invalidity>| #[trigger] validates_to(value, Err(context))
}

/// A utility trait for boolean validity checks.
pub trait IsValid {
    /// Check if this instance is valid, discarding all further
    /// information why if not.
    fn is_valid(&self) -> bool;
}

impl<T> IsValid for T where T: Validate + ?Sized {
    fn is_valid(&self) -> (valid: bool)
        ensures
            valid ==> can_pass(self),
            !valid ==> can_fail(self),
            T::obeys_validate_spec() ==> valid == (self.invalidities().len() == 0),
    {
        let res = self.validate();
        match res {
            Ok(()) => {
                assert(res->Ok_0 == ());
                true
            },
            Err(context) => {
                assert(validates_to(self, Err(context)));
                false
            },
        }
    }
}

/// `Validate` is implemented for any reference of a type
/// that implements `Validate`.
impl<'a, V> Validate for &'a V where V: Validate + ?Sized {
    type Invalidity = V::Invalidity;

    open spec fn obeys_validate_spec() -> bool {
        V::obeys_validate_spec()
    }

    open spec fn invalidities(&self) -> Seq<Self::Invalidity> {
        (**self).invalidities()
    }

    fn validate(&self) -> (res: ValidationResult<Self::Invalidity>)
        ensures
            validates_to(*self, res),
    {
        (*self).validate()
    }
}

/// Validate `Some` or otherwise implicitly evaluate to `Ok`
/// in case of `None`
///
/// If the absence of an optional value is considered a validation
/// error this must be checked separately.
impl<V> Validate for Option<V> where V: Validate {
    type Invalidity = V::Invalidity;

    open spec fn obeys_validate_spec() -> bool {
        V::obeys_validate_spec()
    }

    open spec fn invalidities(&self) -> Seq<Self::Invalidity> {
        match self {
            Some(some) => some.invalidities(),
            None => Seq::empty(),
        }
    }

    fn validate(&self) -> (res: ValidationResult<Self::Invalidity>)
        ensures
            match self {
                Some(some) => validates_to(some, res),
                None => res is Ok,
            },
    {
        if let Some(ref some) = self {
            some.validate()
        } else {
            Ok(())
        }
    }
}

/// Whether `outcomes` holds, for each element of `items` in order,
/// a result of validating that element.
pub open spec fn validates_each_to<V: Validate>(
    items: Seq<V>,
    outcomes: Seq<ValidationResult<V::Invalidity>>,
) -> bool {
    &&& outcomes.len() == items.len()
    &&& forall|i: int| 0 <= i < items.len() ==> validates_to(&items[i], #[trigger] outcomes[i])
}

/// The invalidities that a sequence of validation results carries,
/// in the order of the results.
pub open spec fn gathered<V: Invalidity>(outcomes: Seq<ValidationResult<V>>) -> Seq<V> {
    outcomes.map_values(|res: ValidationResult<V>| invalidities_of(res)).flatten()
}

/// Whether `res` reports what the validation of each element of `items`
/// results in, in the order of the elements.
pub open spec fn validates_all_to<V: Validate>(
    items: Seq<V>,
    res: ValidationResult<V::Invalidity>,
) -> bool {
    exists|outcomes: Seq<ValidationResult<V::Invalidity>>| #[trigger]
        validates_each_to(items, outcomes) && reports(res, gathered(outcomes))
}

/// The invalidities of all elements of a sequence, in the order of the elements.
pub open spec fn all_invalidities<V: Validate>(items: Seq<V>) -> Seq<V::Invalidity> {
    items.map_values(|item: V| item.invalidities()).flatten()
}

/// One more validation result appends its invalidities to those of the results before it.
pub proof fn lemma_gathered_push<V: Invalidity>(
    outcomes: Seq<ValidationResult<V>>,
    res: ValidationResult<V>,
)
    ensures
        gathered(outcomes.push(res)) == gathered(outcomes) + invalidities_of(res),
{
    let each = |res: ValidationResult<V>| invalidities_of(res);
    assert(outcomes.push(res).map_values(each) =~= outcomes.map_values(each).push(each(res)));
    outcomes.map_values(each).lemma_flatten_push(each(res));
}

/// One more element appends its invalidities to those of the elements before it.
pub proof fn lemma_all_invalidities_push<V: Validate>(items: Seq<V>, item: V)
    ensures
        all_invalidities(items.push(item)) == all_invalidities(items) + item.invalidities(),
{
    let each = |item: V| item.invalidities();
    assert(items.push(item).map_values(each) =~= items.map_values(each).push(each(item)));
    items.map_values(each).lemma_flatten_push(each(item));
}

/// The results among `outcomes` that are failures, in their order.
pub open spec fn failures<V: Invalidity>(outcomes: Seq<ValidationResult<V>>) -> Seq<
    ValidationResult<V>,
> {
    outcomes.filter(|res: ValidationResult<V>| res is Err)
}

/// Where every failure among the results carries exactly one invalidity,
/// the results carry as many invalidities as there are failures among them,
/// however many results there are and wherever the failures stand.
pub proof fn lemma_one_invalidity_each<V: Invalidity>(outcomes: Seq<ValidationResult<V>>)
    requires
        forall|i: int|
            0 <= i < outcomes.len() && (#[trigger] outcomes[i]) is Err ==> invalidities_of(
                outcomes[i],
            ).len() == 1,
    ensures
        gathered(outcomes).len() == failures(outcomes).len(),
    decreases outcomes.len(),
{
    if outcomes.len() == 0 {
        assert(outcomes.map_values(|res: ValidationResult<V>| invalidities_of(res)) =~= Seq::<
            Seq<V>,
        >::empty());
        outcomes.lemma_filter_len(|res: ValidationResult<V>| res is Err);
    } else {
        let front = outcomes.drop_last();
        let last = outcomes.last();
        assert(front.push(last) =~= outcomes);
        lemma_one_invalidity_each(front);
        lemma_gathered_push(front, last);
        front.lemma_filter_len_push(|res: ValidationResult<V>| res is Err, last);
    }
}

/// The validation of a sequence whose elements fail with one invalidity each, if they fail,
/// reports as many invalidities as elements fail, and it fails if one of them fails.
pub proof fn lemma_sequence_reports_each_failure<V: Validate>(
    items: Seq<V>,
    outcomes: Seq<ValidationResult<V::Invalidity>>,
    res: ValidationResult<V::Invalidity>,
)
    requires
        validates_each_to(items, outcomes),
        forall|i: int|
            0 <= i < outcomes.len() && (#[trigger] outcomes[i]) is Err ==> invalidities_of(
                outcomes[i],
            ).len() == 1,
        reports(res, gathered(outcomes)),
    ensures
        invalidities_of(res).len() == failures(outcomes).len(),
        res is Err <==> failures(outcomes).len() > 0,
{
    lemma_one_invalidity_each(outcomes);
}

/// The validation of an absent value succeeds, whatever the type of the value.
pub proof fn lemma_absent_is_valid<V: Validate>(res: ValidationResult<V::Invalidity>)
    requires
        validates_to(&None::<V>, res),
    ensures
        res is Ok,
        None::<V>.invalidities() == Seq::<V::Invalidity>::empty(),
{
}

/// Validate all elements of a slice
///
/// Every element is validated, whatever the validation of the others results in.
impl<V> Validate for [V] where V: Validate {
    type Invalidity = V::Invalidity;

    open spec fn obeys_validate_spec() -> bool {
        V::obeys_validate_spec()
    }

    open spec fn invalidities(&self) -> Seq<Self::Invalidity> {
        all_invalidities(self@)
    }

    fn validate(&self) -> (res: ValidationResult<Self::Invalidity>)
        ensures
            validates_all_to(self@, res),
    {
        let mut context = Context::new();
        let mut index: usize = 0;
        let ghost mut outcomes: Seq<ValidationResult<V::Invalidity>> = Seq::empty();
        while index < self.len()
            invariant
                index <= self.len(),
                validates_each_to(self@.take(index as int), outcomes),
                context@ == gathered(outcomes),
                V::obeys_validate_spec() ==> context@ == all_invalidities(self@.take(index as int)),
            decreases self.len() - index,
        {
            let outcome = self[index].validate();
            proof {
                lemma_gathered_push(outcomes, outcome);
                lemma_all_invalidities_push(self@.take(index as int), self@[index as int]);
                assert(self@.take(index as int).push(self@[index as int]) =~= self@.take(
                    index + 1,
                ));
                outcomes = outcomes.push(outcome);
            }
            context = context.merge_result(outcome);
            index = index + 1;
        }
        assert(self@.take(index as int) =~= self@);
        context.into_result()
    }
}

impl<V> Validate for Vec<V> where V: Validate {
    type Invalidity = V::Invalidity;

    open spec fn obeys_validate_spec() -> bool {
        V::obeys_validate_spec()
    }

    open spec fn invalidities(&self) -> Seq<Self::Invalidity> {
        all_invalidities(self@)
    }

    fn validate(&self) -> (res: ValidationResult<Self::Invalidity>)
        ensures
            validates_all_to(self@, res),
    {
        self.as_slice().validate()
    }
}

impl<'a, V> Validate for std::borrow::Cow<'a, V> where V: Validate + Clone {
    type Invalidity = V::Invalidity;

    open spec fn obeys_validate_spec() -> bool {
        V::obeys_validate_spec()
    }

    open spec fn invalidities(&self) -> Seq<Self::Invalidity> {
        match self {
            std::borrow::Cow::Borrowed(borrowed) => borrowed.invalidities(),
            std::borrow::Cow::Owned(owned) => owned.invalidities(),
        }
    }

    fn validate(&self) -> (res: ValidationResult<Self::Invalidity>)
        ensures
            match self {
                std::borrow::Cow::Borrowed(borrowed) => validates_to(*borrowed, res),
                std::borrow::Cow::Owned(owned) => validates_to(owned, res),
            },
    {
        match self {
            std::borrow::Cow::Borrowed(borrowed) => borrowed.validate(),
            std::borrow::Cow::Owned(owned) => owned.validate(),
        }
    }
}

impl<'a, V> Validate for std::borrow::Cow<'a, [V]> where V: Validate + Clone {
    type Invalidity = V::Invalidity;

    open spec fn obeys_validate_spec() -> bool {
        V::obeys_validate_spec()
    }

    open spec fn invalidities(&self) -> Seq<Self::Invalidity> {
        match self {
            std::borrow::Cow::Borrowed(borrowed) => all_invalidities(borrowed@),
            std::borrow::Cow::Owned(owned) => all_invalidities(owned@),
        }
    }

    fn validate(&self) -> (res: ValidationResult<Self::Invalidity>)
        ensures
            match self {
                std::borrow::Cow::Borrowed(borrowed) => validates_all_to(borrowed@, res),
                std::borrow::Cow::Owned(owned) => validates_all_to(owned@, res),
            },
    {
        match self {
            std::borrow::Cow::Borrowed(borrowed) => borrowed.validate(),
            std::borrow::Cow::Owned(owned) => owned.validate(),
        }
    }
}

/// Tags a type as _validated_
///
/// A value of this type holds a value whose validation has succeeded.
#[derive(Debug)]
pub struct Validated<T: Validate>(T);

impl<T: Validate> View for Validated<T> {
    type V = T;

    closed spec fn view(&self) -> T {
        self.0
    }
}

impl<T: Validate> Validated<T> {
    #[verifier::type_invariant]
    spec fn has_passed(self) -> bool {
        T::obeys_validate_spec() ==> self.0.invalidities().len() == 0
    }

    /// Extract the validated value
    pub fn into(self) -> (value: T)
        ensures
            value == self@,
            T::obeys_validate_spec() ==> value.invalidities().len() == 0,
    {
        proof {
            use_type_invariant(&self);
        }
        self.0
    }

    /// Converts from `&Validated<T>` to `Validated<&T>`.
    #[inline]
    pub fn as_ref(&self) -> (validated: Validated<&T>)
        ensures
            validated@ == &self@,
    {
        proof {
            use_type_invariant(self);
        }
        Validated(&self.0)
    }
}

impl<T: Validate> AsRef<T> for Validated<T> {
    fn as_ref(&self) -> &T
        returns
            &self@,
    {
        &self.0
    }
}

impl<T: Validate> core::ops::Deref for Validated<T> {
    type Target = T;

    fn deref(&self) -> (value: &T)
        ensures
            *value == self@,
            T::obeys_validate_spec() ==> value.invalidities().len() == 0,
    {
        proof {
            use_type_invariant(self);
        }
        &self.0
    }
}

impl<T: Validate + Copy> Clone for Validated<T> {
    fn clone(&self) -> (copy: Self)
        ensures
            copy == *self,
    {
        *self
    }
}

impl<T: Validate + Copy> Copy for Validated<T> {

}

/// Result of a value-to-value conversion with post-validation of the output value
pub type ValidatedResult<T> = core::result::Result<
    Validated<T>,
    (T, Context<<T as Validate>::Invalidity>),
>;

/// The output value that the result of a conversion with post-validation carries.
pub open spec fn output_of<T: Validate>(res: ValidatedResult<T>) -> T {
    match res {
        Ok(validated) => validated@,
        Err((invalid, _)) => invalid,
    }
}

/// Whether `res` says what the validation of the output value that it carries results in:
/// success, or a failure with the invalidities.
pub open spec fn is_post_validated<T: Validate>(res: ValidatedResult<T>) -> bool {
    match res {
        Ok(validated) => {
            &&& can_pass(&validated@)
            &&& T::obeys_validate_spec() ==> validated@.invalidities().len() == 0
        },
        Err((invalid, context)) => {
            &&& validates_to(&invalid, Err(context))
            &&& context@.len() > 0
            &&& T::obeys_validate_spec() ==> context@ == invalid.invalidities()
        },
    }
}

/// Value-to-value conversion with post-validation of the output value
///
/// On success the output value is returned. On validation errors the output
/// value is returned together with all invalidities.
///
/// The initial value-to-value conversion from input to output must always succeed.
/// The validation is performed on the output value after the input value has
/// been consumed during the conversion.
pub trait ValidatedFrom<T>: Validate + Sized {
    /// Convert input value into `Self` and validate `self`
    fn validated_from(from: T) -> (res: ValidatedResult<Self>)
        ensures
            is_post_validated(res),
    ;
}

impl<T> ValidatedFrom<T> for T where T: Validate {
    fn validated_from(from: T) -> (res: ValidatedResult<Self>)
        ensures
            output_of(res) == from,
    {
        let res = from.validate();
        match res {
            Err(err) => Err((from, err)),
            Ok(()) => {
                assert(res->Ok_0 == ());
                Ok(Validated(from))
            },
        }
    }
}

/// Value-to-value conversion with post-validation of the output value
///
/// Prefer to implement [`ValidatedFrom`] for types inside
/// the current crate. All types that implement [`ValidatedFrom`]
/// implicitly implement this trait.
pub trait IntoValidated<V: Validate> {
    /// Convert `self` into output value and validate the output
    fn into_validated(self) -> (res: ValidatedResult<V>)
        ensures
            is_post_validated(res),
    ;
}

impl<T, V> IntoValidated<V> for T where V: ValidatedFrom<T> {
    fn into_validated(self) -> (res: ValidatedResult<V>)
        ensures
            call_ensures(V::validated_from, (self,), res),
    {
        V::validated_from(self)
    }
}

} // verus!
