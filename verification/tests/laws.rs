use std::borrow::Cow;

use semval::context::Context;
use semval::util::{IsEmpty, Mergeable, UnitResult};
use semval::{IntoValidated, IsValid, Validate, Validated, ValidatedResult, ValidationResult};

#[derive(Copy, Clone, Debug, Eq, PartialEq)]
struct Even(u32);

#[derive(Copy, Clone, Debug, Eq, PartialEq)]
struct Odd(u32);

impl Validate for Even {
    type Invalidity = Odd;

    fn validate(&self) -> ValidationResult<Self::Invalidity> {
        Context::new().record_if(self.0 % 2 == 1, Odd(self.0)).into()
    }
}

#[derive(Copy, Clone, Debug, Eq, PartialEq)]
enum Wrapped {
    Own(u8),
    Nested(Odd),
}

impl From<Odd> for Wrapped {
    fn from(from: Odd) -> Self {
        Wrapped::Nested(from)
    }
}

fn items<V: semval::Invalidity>(context: Context<V>) -> Vec<V> {
    context.into_iter().collect()
}

fn context_of(values: &[u8]) -> Context<u8> {
    let mut context = Context::new();
    for value in values {
        context = context.record(*value);
    }
    context
}

#[test]
fn new_context_finishes_with_success() {
    assert_eq!(Ok(()), Context::<u8>::new().into_result());
    assert_eq!(Ok(()), ValidationResult::<u8>::from(Context::default()));
    assert_eq!(Ok(()), Context::<u8>::empty(8).into_result());
    assert_eq!(Ok(()), Context::<u8>::empty(None).into_result());
}

#[test]
fn record_adds_exactly_one() {
    let context = Context::<u8>::new();
    assert_eq!(0, items(context.clone()).len());
    let context = context.record(3);
    assert_eq!(1, items(context.clone()).len());
    let context = context.record(3);
    assert_eq!(2, items(context.clone()).len());
    assert!(!context.is_valid());
}

#[test]
fn record_if_adds_one_or_none() {
    let context = context_of(&[1]).record_if(false, 2);
    assert_eq!(vec![1], items(context.clone()));
    let context = context.record_if(true, 3);
    assert_eq!(vec![1, 3], items(context));
}

#[test]
fn invalidate_converts_before_it_records() {
    let context = Context::<Wrapped>::new()
        .invalidate(Wrapped::Own(1))
        .invalidate(Odd(3));
    assert_eq!(vec![Wrapped::Own(1), Wrapped::Nested(Odd(3))], items(context));
}

#[test]
fn invalidate_if_records_only_on_condition() {
    let context = Context::<Wrapped>::new()
        .invalidate_if(false, Odd(1))
        .invalidate_if(true, Odd(3))
        .invalidate_if(false, Wrapped::Own(5))
        .invalidate_if(true, Wrapped::Own(7));
    assert_eq!(
        vec![Wrapped::Nested(Odd(3)), Wrapped::Own(7)],
        items(context)
    );
}

#[test]
fn finished_failure_keeps_the_order_of_recording() {
    match context_of(&[9, 1, 5]).into_result() {
        Ok(()) => panic!("invalidities were lost"),
        Err(context) => assert_eq!(vec![9, 1, 5], items(context)),
    }
}

#[test]
fn merge_appends_right_after_left() {
    let merged = context_of(&[1, 2]).merge(context_of(&[3]));
    assert_eq!(vec![1, 2, 3], items(merged));
}

#[test]
fn merge_keeps_the_order_whichever_side_is_larger() {
    let small = context_of(&[1]);
    let large = context_of(&[2, 3, 4, 5, 6, 7, 8, 9, 10, 11, 12]);
    assert_eq!(
        vec![1, 2, 3, 4, 5, 6, 7, 8, 9, 10, 11, 12],
        items(small.clone().merge(large.clone()))
    );
    assert_eq!(
        vec![2, 3, 4, 5, 6, 7, 8, 9, 10, 11, 12, 1],
        items(large.merge(small))
    );
    assert_eq!(vec![1, 2, 3], vec![1].merge(vec![2, 3]));
}

#[test]
fn merge_is_associative() {
    let x = context_of(&[1, 2]);
    let y = context_of(&[3]);
    let z = context_of(&[4, 5, 6]);
    let left = x.clone().merge(y.clone()).merge(z.clone());
    let right = x.merge(y.merge(z));
    assert_eq!(left, right);
    assert_eq!(vec![1, 2, 3, 4, 5, 6], items(left));
}

#[test]
fn empty_context_is_neutral() {
    let x = context_of(&[7, 8]);
    assert_eq!(x, x.clone().merge(Context::new()));
    assert_eq!(x, Context::new().merge(x.clone()));
    assert_eq!(x, x.clone().merge(Context::empty(16)));
}

#[test]
fn merge_iter_appends_the_items_in_order() {
    let merged = context_of(&[1]).merge_iter(2, vec![2, 3].into_iter());
    assert_eq!(vec![1, 2, 3], items(merged));
    let same = context_of(&[1]).merge_iter(None, Vec::new().into_iter());
    assert_eq!(vec![1], items(same));
}

#[test]
fn merge_result_appends_a_failure_and_ignores_a_success() {
    let context = context_of(&[1]).merge_result(Ok(()));
    assert_eq!(vec![1], items(context.clone()));
    let context = context.merge_result(Err(context_of(&[2, 3])));
    assert_eq!(vec![1, 2, 3], items(context));
}

#[test]
fn merge_result_with_maps_each_invalidity() {
    let failure: ValidationResult<Odd> = Err(Context::new().record(Odd(1)).record(Odd(3)));
    let context = Context::new()
        .record(Wrapped::Own(0))
        .merge_result_with(failure, Wrapped::Nested)
        .merge_result_with(Ok(()) as ValidationResult<Odd>, Wrapped::Nested);
    assert_eq!(
        vec![
            Wrapped::Own(0),
            Wrapped::Nested(Odd(1)),
            Wrapped::Nested(Odd(3))
        ],
        items(context)
    );
}

#[test]
fn validate_with_collects_from_every_target() {
    let context = Context::<Wrapped>::new()
        .validate_with(&Even(1), Wrapped::Nested)
        .validate_with(&Even(2), Wrapped::Nested)
        .validate_with(&Even(3), |odd: Odd| Wrapped::Own(odd.0 as u8));
    assert_eq!(vec![Wrapped::Nested(Odd(1)), Wrapped::Own(3)], items(context));
}

#[test]
fn validate_converts_the_invalidities_of_the_target() {
    let context = Context::<Wrapped>::new()
        .record(Wrapped::Own(9))
        .validate(&Even(5))
        .validate(&Even(6));
    assert_eq!(vec![Wrapped::Own(9), Wrapped::Nested(Odd(5))], items(context));
}

#[test]
fn absent_value_is_valid() {
    assert_eq!(Ok(()), (None as Option<Even>).validate());
    assert!((None as Option<Even>).is_valid());
    assert_eq!(
        Err(Context::new().record(Odd(1))),
        Some(Even(1)).validate()
    );
    assert_eq!(Ok(()), Some(Even(2)).validate());
}

#[test]
fn reference_validates_as_the_value() {
    let odd = Even(7);
    assert_eq!(odd.validate(), (&odd).validate());
    assert_eq!(odd.validate(), (&&odd).validate());
    assert!((&Even(8)).is_valid());
}

#[test]
fn sequence_reports_one_invalidity_for_each_invalid_element() {
    let elements = vec![Even(1), Even(2), Even(4), Even(7), Even(8), Even(9)];
    match elements.validate() {
        Ok(()) => panic!("invalid elements were accepted"),
        Err(context) => assert_eq!(vec![Odd(1), Odd(7), Odd(9)], items(context)),
    }
    let front = [Even(3), Even(2), Even(2), Even(2)];
    assert_eq!(Err(Context::new().record(Odd(3))), front.validate());
    let back = [Even(2), Even(2), Even(2), Even(3)];
    assert_eq!(Err(Context::new().record(Odd(3))), back.validate());
}

#[test]
fn empty_and_valid_sequences_are_valid() {
    assert_eq!(Ok(()), Vec::<Even>::new().validate());
    assert_eq!(Ok(()), vec![Even(0), Even(2)].validate());
    let none: [Even; 0] = [];
    assert!(none.is_valid());
}

#[test]
fn borrowed_and_owned_values_validate_alike() {
    let value = Even(5);
    let borrowed: Cow<'_, Even> = Cow::Borrowed(&value);
    let owned: Cow<'_, Even> = Cow::Owned(Even(5));
    assert_eq!(value.validate(), borrowed.validate());
    assert_eq!(value.validate(), owned.validate());
    let elements = [Even(1), Even(2), Even(3)];
    let borrowed: Cow<'_, [Even]> = Cow::Borrowed(&elements);
    let owned: Cow<'_, [Even]> = Cow::Owned(elements.to_vec());
    assert_eq!(elements.validate(), borrowed.validate());
    assert_eq!(
        Err(Context::new().record(Odd(1)).record(Odd(3))),
        owned.validate()
    );
}

#[test]
fn validated_gives_the_value_back() {
    let res: ValidatedResult<Even> = Even(4).into_validated();
    match res {
        Ok(validated) => {
            let copy = validated;
            assert_eq!(Even(4), *validated);
            assert_eq!(&Even(4), AsRef::<Even>::as_ref(&validated));
            let by_ref: Validated<&Even> = validated.as_ref();
            assert_eq!(&Even(4), by_ref.into());
            assert_eq!(Even(4), validated.into());
            assert_eq!(Even(4), copy.clone().into());
        }
        Err(_) => panic!("a valid value was rejected"),
    }
}

#[test]
fn into_validated_returns_an_invalid_value_with_its_invalidities() {
    let res: ValidatedResult<Even> = Even(5).into_validated();
    match res {
        Ok(_) => panic!("an invalid value was accepted"),
        Err((value, context)) => {
            assert_eq!(Even(5), value);
            assert_eq!(vec![Odd(5)], items(context));
        }
    }
}

#[test]
fn context_is_empty_until_the_first_invalidity() {
    assert!(Context::<u8>::new().is_empty());
    assert!(Context::<u8>::new().is_valid());
    assert!(!context_of(&[0]).is_empty());
    assert!(!context_of(&[0]).is_valid());
}

#[test]
fn quantities_are_empty_at_zero() {
    assert!(0usize.is_empty());
    assert!(!1usize.is_empty());
    assert!(!vec![1].is_empty());
}

#[test]
fn quantities_merge_by_addition() {
    assert_eq!(0, <usize as Mergeable>::empty(3));
    assert_eq!(7, 3usize.merge(4));
    assert_eq!(3, 3usize.merge(<usize as Mergeable>::empty(None)));
    assert_eq!(16, 1usize.merge_iter(3, vec![4, 5, 6].into_iter()));
    assert_eq!(usize::MAX, (usize::MAX - 1).merge(1));
}

#[test]
fn unit_result_is_neutral_on_success() {
    let success: UnitResult<Vec<u8>> = Mergeable::empty(4);
    assert_eq!(Ok(()), success);
    let failure: UnitResult<Vec<u8>> = Err(vec![1]);
    assert_eq!(Err(vec![1]), failure.clone().merge(Ok(())));
    assert_eq!(Err(vec![1]), Ok(()).merge(failure.clone()));
    assert_eq!(Err(vec![1, 2]), failure.merge(Err(vec![2])));
}

#[test]
fn unit_result_failure_takes_up_items() {
    let failure: UnitResult<Vec<u8>> = Err(vec![1]);
    assert_eq!(
        Err(vec![1, 2, 3]),
        failure.merge_iter(2, vec![2, 3].into_iter())
    );
    let quantity: UnitResult<usize> = Err(1);
    assert_eq!(Err(6), quantity.merge_iter(None, vec![2, 3].into_iter()));
}

#[test]
fn capacity_hints_do_not_change_the_result() {
    assert_eq!(Vec::<u64>::new(), <Vec<u64> as Mergeable>::empty(usize::MAX));
    assert_eq!(
        vec![1u64, 2],
        vec![1u64].merge_iter(usize::MAX, vec![2u64].into_iter())
    );
    assert_eq!(Context::<u64>::new(), Context::<u64>::empty(usize::MAX));
}
