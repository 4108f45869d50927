use vstd::prelude::*;
use vstd::std_specs::convert::FromSpecImpl;
use vstd::std_specs::convert::IntoSpec;
use vstd::std_specs::iter::IteratorSpec;

use crate::util::{IsEmpty, Mergeable};
use crate::{Invalidity, Validate, ValidationResult};

verus! {

/// A collection of invalidities resulting from a validation
///
/// Collects invalidities that are detected while performing
/// a validation. The view of a context is the sequence of the
/// collected invalidities in the order of their detection.
#[derive(Clone, Debug, PartialEq, Eq)]
pub struct Context<V> where V: Invalidity {
    invalidities: Vec<V>,
}

impl<V> View for Context<V> where V: Invalidity {
    type V = Seq<V>;

    closed spec fn view(&self) -> Seq<V> {
        self.invalidities@
    }
}

/// Whether `after` consists of `before` followed by one image under `map`
/// of each element of `items`, in the order of `items`.
pub open spec fn extends_by_mapped<U, V, F: Fn(U) -> V>(
    before: Seq<V>,
    items: Seq<U>,
    map: F,
    after: Seq<V>,
) -> bool {
    let head = after.take(before.len() as int);
    let tail = after.skip(before.len() as int);
    &&& after.len() == before.len() + items.len()
    &&& head == before
    &&& forall|i: int| 0 <= i < items.len() ==> call_ensures(map, (items[i],), #[trigger] tail[i])
}

/// Whether `after` consists of `before` followed by what `invalidity` is converted into.
pub open spec fn records<I: Into<V>, V>(before: Seq<V>, invalidity: I, after: Seq<V>) -> bool {
    &&& after.len() == before.len() + 1
    &&& after.drop_last() == before
    &&& call_ensures(<I as Into<V>>::into, (invalidity,), after.last())
    &&& I::obeys_into_spec() ==> after == before.push(invalidity.into_spec())
}

/// Whether `after` is `before` after `invalidity` has been recorded on the condition
/// `is_invalid`. The condition is converted into a `bool`. If that holds, `after` is
/// `before` followed by what `invalidity` is converted into, and otherwise it is `before`.
pub open spec fn records_if<B: Into<bool>, I: Into<V>, V>(
    before: Seq<V>,
    is_invalid: B,
    invalidity: I,
    after: Seq<V>,
) -> bool {
    &&& exists|condition: bool| #[trigger]
        call_ensures(<B as Into<bool>>::into, (is_invalid,), condition) && if condition {
            records(before, invalidity, after)
        } else {
            after == before
        }
    &&& B::obeys_into_spec() ==> if is_invalid.into_spec() {
        records(before, invalidity, after)
    } else {
        after == before
    }
}

/// Whether `map` can be applied to each element of `items`.
pub open spec fn accepts_all<U, V, F: Fn(U) -> V>(map: F, items: Seq<U>) -> bool {
    forall|i: int| 0 <= i < items.len() ==> call_requires(map, (#[trigger] items[i],))
}

/// Whether `after` consists of `before` followed by one image under `map` of each
/// invalidity that a validation of `target` results in, in their order.
pub open spec fn extends_by_validation<T: Validate + ?Sized, V, F: Fn(T::Invalidity) -> V>(
    before: Seq<V>,
    target: &T,
    map: F,
    after: Seq<V>,
) -> bool {
    exists|res: ValidationResult<T::Invalidity>| #[trigger]
        crate::validates_to(target, res) && extends_by_mapped(
            before,
            crate::invalidities_of(res),
            map,
            after,
        )
}

impl<V> IsEmpty for Context<V> where V: Invalidity {
    open spec fn spec_is_empty(&self) -> bool {
        self@.len() == 0
    }

    fn is_empty(&self) -> (empty: bool) {
        self.invalidities.is_empty()
    }
}

impl<V> Mergeable for Context<V> where V: Invalidity {
    type Item = V;

    type Model = Seq<V>;

    open spec fn model(&self) -> Seq<V> {
        self@
    }

    open spec fn empty_model() -> Seq<V> {
        Seq::empty()
    }

    open spec fn can_merge(left: Seq<V>, right: Seq<V>) -> bool {
        true
    }

    open spec fn merged(left: Seq<V>, right: Seq<V>) -> Seq<V> {
        left + right
    }

    open spec fn can_absorb(base: Seq<V>, items: Seq<V>) -> bool {
        true
    }

    open spec fn absorbed(base: Seq<V>, items: Seq<V>) -> Seq<V> {
        base + items
    }

    fn empty<H>(capacity_hint: H) -> (res: Self) where H: Into<Option<usize>>
        ensures
            res@ == Seq::<V>::empty(),
    {
        let invalidities = Mergeable::empty(capacity_hint);
        Self { invalidities }
    }

    fn merge(self, other: Self) -> (res: Self)
        ensures
            res@ == self@ + other@,
    {
        let invalidities = self.invalidities.merge(other.invalidities);
        Self { invalidities }
    }

    fn merge_iter<H, I>(self, count_hint: H, iter: I) -> (res: Self) where
        H: Into<Option<usize>>,
        I: Iterator<Item = V>,

        ensures
            res@ == self@ + iter.remaining(),
    {
        let invalidities = self.invalidities.merge_iter(count_hint, iter);
        Self { invalidities }
    }

    proof fn lemma_empty_is_neutral(value: Context<V>) {
        assert(value@ + Seq::<V>::empty() =~= value@);
        assert(Seq::<V>::empty() + value@ =~= value@);
    }

    proof fn lemma_merge_is_associative(a: Context<V>, b: Context<V>, c: Context<V>) {
        assert((a@ + b@) + c@ =~= a@ + (b@ + c@));
    }
}

impl<V> Context<V> where V: Invalidity {
    /// Create a new valid and empty context
    ///
    /// Nothing is allocated before the first invalidity is recorded.
    #[inline]
    #[must_use]
    pub fn new() -> (res: Self)
        ensures
            res@ == Seq::<V>::empty(),
    {
        Self { invalidities: Vec::new() }
    }

    /// Check if the context is still valid
    #[inline]
    #[must_use]
    pub fn is_valid(&self) -> (valid: bool)
        ensures
            valid == (self@.len() == 0),
    {
        self.is_empty()
    }

    /// Record an invalidity of the context's own type
    #[inline]
    #[must_use]
    pub fn record(self, invalidity: V) -> (res: Self)
        ensures
            res@ == self@.push(invalidity),
            res@.len() == self@.len() + 1,
    {
        let mut invalidities = self.invalidities;
        invalidities.push(invalidity);
        Self { invalidities }
    }

    /// Record an invalidity of the context's own type if the condition holds
    #[inline]
    #[must_use]
    pub fn record_if(self, is_invalid: bool, invalidity: V) -> (res: Self)
        ensures
            res@ == if is_invalid {
                self@.push(invalidity)
            } else {
                self@
            },
            res@.len() == self@.len() + if is_invalid {
                1int
            } else {
                0int
            },
    {
        if is_invalid {
            self.record(invalidity)
        } else {
            self
        }
    }

    /// Record a new invalidity within this context
    ///
    /// The invalidity is converted into the type of the context first.
    #[inline]
    #[must_use]
    pub fn invalidate<I>(self, invalidity: I) -> (res: Self) where I: Into<V>
        ensures
            records(self@, invalidity, res@),
    {
        let res = self.record(invalidity.into());
        assert(res@.drop_last() =~= self@);
        res
    }

    /// Conditionally record a new invalidity within this context
    ///
    /// The condition is converted into a `bool` first. The invalidity
    /// is converted and recorded only if the condition holds.
    #[inline]
    #[must_use]
    pub fn invalidate_if<B, I>(self, is_invalid: B, invalidity: I) -> (res: Self) where
        B: Into<bool>,
        I: Into<V>,

        ensures
            records_if(self@, is_invalid, invalidity, res@),
    {
        let condition: bool = is_invalid.into();
        assert(call_ensures(<B as Into<bool>>::into, (is_invalid,), condition));
        if condition {
            self.invalidate(invalidity)
        } else {
            self
        }
    }

    /// Merge the results of another validation
    ///
    /// Needed for collecting results from custom validation functions.
    #[inline]
    #[must_use]
    pub fn merge_result(self, res: ValidationResult<V>) -> (merged: Self)
        ensures
            merged@ == self@ + crate::invalidities_of(res),
    {
        if let Err(other) = res {
            self.merge(other)
        } else {
            assert(self@ + Seq::<V>::empty() =~= self@);
            self
        }
    }

    /// Merge the mapped results of another validation
    ///
    /// Needed for collecting results from custom validation functions.
    #[must_use]
    pub fn merge_result_with<F, U>(self, res: ValidationResult<U>, map: F) -> (merged: Self) where
        F: Fn(U) -> V,
        U: Invalidity,

        requires
            accepts_all(map, crate::invalidities_of(res)),
        ensures
            extends_by_mapped(self@, crate::invalidities_of(res), map, merged@),
    {
        if let Err(other) = res {
            let additional = other.invalidities.len();
            let iter = other.invalidities.into_iter();
            proof {
                vstd::std_specs::vec::axiom_spec_into_iter(other.invalidities);
                assert(iter.remaining() == crate::invalidities_of(res));
            }
            self.merge_mapped(additional, iter, map)
        } else {
            assert(self@.take(self@.len() as int) =~= self@);
            self
        }
    }

    /// Appends the image under `map` of each item that `iter` yields.
    fn merge_mapped<F, U, I>(self, additional: usize, iter: I, map: F) -> (merged: Self) where
        F: Fn(U) -> V,
        I: Iterator<Item = U>,

        requires
            iter.obeys_prophetic_iter_laws(),
            iter.decrease() is Some,
            forall|i: int|
                0 <= i < iter.remaining().len() ==> call_requires(
                    map,
                    (#[trigger] iter.remaining()[i],),
                ),
        ensures
            extends_by_mapped(self@, iter.remaining(), map, merged@),
    {
        let ghost items = iter.remaining();
        let mut iter = iter;
        let mut invalidities = self.invalidities;
        let _ = invalidities.try_reserve(additional);
        let ghost mut done: int = 0;
        loop
            invariant
                iter.obeys_prophetic_iter_laws(),
                iter.decrease() is Some,
                0 <= done <= items.len(),
                iter.remaining() == items.skip(done),
                invalidities@.len() == self@.len() + done,
                invalidities@.take(self@.len() as int) == self@,
                forall|i: int| 0 <= i < items.len() ==> call_requires(map, (#[trigger] items[i],)),
                forall|i: int|
                    0 <= i < done ==> call_ensures(
                        map,
                        (items[i],),
                        #[trigger] invalidities@.skip(self@.len() as int)[i],
                    ),
            ensures
                extends_by_mapped(self@, items, map, invalidities@),
            decreases iter.decrease()->0,
        {
            match iter.next() {
                Some(item) => {
                    let ghost before = invalidities@;
                    assert(item == items[done]);
                    invalidities.push(map(item));
                    proof {
                        assert(invalidities@.take(self@.len() as int) =~= before.take(
                            self@.len() as int,
                        ));
                        assert forall|i: int| 0 <= i < done + 1 implies call_ensures(
                            map,
                            (items[i],),
                            #[trigger] invalidities@.skip(self@.len() as int)[i],
                        ) by {
                            if i < done {
                                assert(invalidities@.skip(self@.len() as int)[i] == before.skip(
                                    self@.len() as int,
                                )[i]);
                            }
                        }
                        assert(iter.remaining() =~= items.skip(done + 1));
                        done = done + 1;
                    }
                },
                None => {
                    break ;
                },
            }
        }
        Self { invalidities }
    }

    /// Validate the target and merge the result into this context
    ///
    /// Each invalidity of the target is converted into the type of the context.
    #[inline]
    #[must_use]
    pub fn validate<U>(self, target: &impl Validate<Invalidity = U>) -> (merged: Self) where
        U: Invalidity + Into<V>,

        ensures
            extends_by_validation(self@, target, <U as Into<V>>::into, merged@),
            crate::obeys_spec(target) ==> extends_by_mapped(
                self@,
                target.invalidities(),
                <U as Into<V>>::into,
                merged@,
            ),
    {
        self.validate_with(target, <U as Into<V>>::into)
    }

    /// Validate the target and merge the mapped result into this context
    ///
    /// The target is validated whatever this context holds already.
    #[inline]
    #[must_use]
    pub fn validate_with<F, U>(self, target: &impl Validate<Invalidity = U>, map: F) -> (merged:
        Self) where F: Fn(U) -> V, U: Invalidity
        requires
            forall|res: ValidationResult<U>| #[trigger]
                crate::validates_to(target, res) ==> accepts_all(map, crate::invalidities_of(res)),
        ensures
            extends_by_validation(self@, target, map, merged@),
            crate::obeys_spec(target) ==> extends_by_mapped(
                self@,
                target.invalidities(),
                map,
                merged@,
            ),
    {
        let res = target.validate();
        assert(crate::validates_to(target, res));
        self.merge_result_with(res, map)
    }

    /// The result that finishes the validation of this context.
    pub open spec fn spec_into_result(self) -> ValidationResult<V> {
        if self@.len() == 0 {
            Ok(())
        } else {
            Err(self)
        }
    }

    /// Finish the validation
    ///
    /// Finishes the current validation of this context with a result:
    /// `Ok` if no invalidity has been collected, and otherwise
    /// `Err` with the context itself.
    #[inline]
    pub fn into_result(self) -> (res: ValidationResult<V>)
        ensures
            res == self.spec_into_result(),
            crate::reports(res, self@),
    {
        if self.is_valid() {
            Ok(())
        } else {
            Err(self)
        }
    }
}

impl<V> Default for Context<V> where V: Invalidity {
    fn default() -> (res: Self)
        ensures
            res@ == Seq::<V>::empty(),
    {
        Self::new()
    }
}

impl<V> From<Context<V>> for ValidationResult<V> where V: Invalidity {
    fn from(from: Context<V>) -> (res: Self) {
        from.into_result()
    }
}

impl<V> FromSpecImpl<Context<V>> for ValidationResult<V> where V: Invalidity {
    open spec fn obeys_from_spec() -> bool {
        true
    }

    open spec fn from_spec(from: Context<V>) -> Self {
        from.spec_into_result()
    }
}

/// Transform the validation context into an iterator
/// that yields all the collected invalidities.
impl<V> IntoIterator for Context<V> where V: Invalidity {
    type Item = V;

    type IntoIter = std::vec::IntoIter<V>;

    fn into_iter(self) -> (iter: Self::IntoIter)
        ensures
            iter.remaining() == self@,
    {
        proof {
            vstd::std_specs::vec::axiom_spec_into_iter(self.invalidities);
        }
        self.invalidities.into_iter()
    }
}

/// A context without invalidities finishes with success.
pub proof fn lemma_empty_is_valid<V: Invalidity>(context: Context<V>)
    requires
        context@.len() == 0,
    ensures
        context.spec_into_result() == Ok::<(), Context<V>>(()),
        crate::reports(context.spec_into_result(), Seq::empty()),
{
}

/// A context with invalidities finishes with a failure that carries
/// the same invalidities in the same order.
pub proof fn lemma_invalid_is_reported<V: Invalidity>(context: Context<V>)
    requires
        context@.len() > 0,
    ensures
        context.spec_into_result() == Err::<(), Context<V>>(context),
        crate::invalidities_of(context.spec_into_result()) == context@,
{
}

/// Merging keeps the order: the invalidities of the left context come first,
/// in their order, and those of the right context follow, in their order.
pub proof fn lemma_merge_preserves_order<V: Invalidity>(left: Context<V>, right: Context<V>)
    ensures
        Context::<V>::merged(left@, right@).len() == left@.len() + right@.len(),
        forall|i: int|
            0 <= i < left@.len() ==> Context::<V>::merged(left@, right@)[i] == left@[i],
        forall|i: int|
            0 <= i < right@.len() ==> Context::<V>::merged(left@, right@)[left@.len() + i]
                == right@[i],
{
}

/// Nothing is dropped when two validations are merged one after the other:
/// the result holds what was there before, then an image of each item of the
/// first validation, then an image of each item of the second, all in order.
pub proof fn lemma_extends_twice<U1, U2, V, F1: Fn(U1) -> V, F2: Fn(U2) -> V>(
    before: Seq<V>,
    first: Seq<U1>,
    map_first: F1,
    between: Seq<V>,
    second: Seq<U2>,
    map_second: F2,
    after: Seq<V>,
)
    requires
        extends_by_mapped(before, first, map_first, between),
        extends_by_mapped(between, second, map_second, after),
    ensures
        after.len() == before.len() + first.len() + second.len(),
        after.take(before.len() as int) == before,
        forall|i: int|
            0 <= i < first.len() ==> call_ensures(
                map_first,
                (first[i],),
                #[trigger] after[before.len() + i],
            ),
        forall|i: int|
            0 <= i < second.len() ==> call_ensures(
                map_second,
                (second[i],),
                #[trigger] after[before.len() + first.len() + i],
            ),
{
    assert(after.take(before.len() as int) =~= after.take(between.len() as int).take(
        before.len() as int,
    ));
    assert forall|i: int| 0 <= i < first.len() implies call_ensures(
        map_first,
        (first[i],),
        #[trigger] after[before.len() + i],
    ) by {
        assert(after[before.len() + i] == after.take(between.len() as int)[before.len() + i]);
        assert(between[before.len() + i] == between.skip(before.len() as int)[i]);
    }
    assert forall|i: int| 0 <= i < second.len() implies call_ensures(
        map_second,
        (second[i],),
        #[trigger] after[before.len() + first.len() + i],
    ) by {
        assert(after[before.len() + first.len() + i] == after.skip(between.len() as int)[i]);
    }
}

/// Merging a validation without invalidities changes nothing.
pub proof fn lemma_extends_by_nothing<U, V, F: Fn(U) -> V>(before: Seq<V>, map: F, after: Seq<V>)
    requires
        extends_by_mapped(before, Seq::<U>::empty(), map, after),
    ensures
        after == before,
{
    assert(after.take(before.len() as int) =~= after);
}

} // verus!
