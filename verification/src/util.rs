use vstd::prelude::*;
use vstd::std_specs::iter::IteratorSpec;

verus! {

/// Something that may hold nothing.
pub trait IsEmpty {
    /// Whether the value holds nothing.
    spec fn spec_is_empty(&self) -> bool;

    /// Check if the value holds nothing
    fn is_empty(&self) -> (empty: bool)
        ensures
            empty == self.spec_is_empty(),
    ;
}

/// Trivial implementation of `IsEmpty` for the unit type `()`
impl IsEmpty for () {
    open spec fn spec_is_empty(&self) -> bool {
        true
    }

    fn is_empty(&self) -> (empty: bool) {
        true
    }
}

/// Trivial implementation of `IsEmpty` for quantities
impl IsEmpty for usize {
    open spec fn spec_is_empty(&self) -> bool {
        *self == 0
    }

    fn is_empty(&self) -> (empty: bool) {
        *self == 0
    }
}

impl<T> IsEmpty for Vec<T> {
    open spec fn spec_is_empty(&self) -> bool {
        self@.len() == 0
    }

    fn is_empty(&self) -> (empty: bool) {
        self.len() == 0
    }
}

/// A monoid for collecting or accumulating items
///
/// What an instance stands for is its model. Merging is stated over models:
/// it combines them associatively, and the model of an empty instance is neutral.
pub trait Mergeable: Sized {
    /// The items that an instance takes up
    type Item;

    /// The mathematical values that instances stand for
    type Model;

    /// The mathematical value that the instance stands for.
    spec fn model(&self) -> Self::Model;

    /// The neutral element.
    spec fn empty_model() -> Self::Model;

    /// Whether the combination of two values can be represented.
    spec fn can_merge(left: Self::Model, right: Self::Model) -> bool;

    /// The combination of two values.
    spec fn merged(left: Self::Model, right: Self::Model) -> Self::Model;

    /// Whether a value can take up the given items.
    spec fn can_absorb(base: Self::Model, items: Seq<Self::Item>) -> bool;

    /// A value after it has taken up the given items in order.
    spec fn absorbed(base: Self::Model, items: Seq<Self::Item>) -> Self::Model;

    /// Create an empty instance
    ///
    /// The optional `capacity_hint` parameter allows to provide a best guess
    /// for the initial capacity, depending on how many items are expected
    /// to be accumulated. It has no influence on the result.
    fn empty<H>(capacity_hint: H) -> (res: Self) where H: Into<Option<usize>>
        ensures
            res.model() == Self::empty_model(),
    ;

    /// Consuming combine operation that merges this with another instance
    fn merge(self, other: Self) -> (res: Self)
        requires
            Self::can_merge(self.model(), other.model()),
        ensures
            res.model() == Self::merged(self.model(), other.model()),
    ;

    /// Consuming combine operation that merges this instance with the
    /// items generated by an iterator
    ///
    /// The `reserve_hint` parameter allows to provide a hint how much additional
    /// capacity should be reserved for the generated items. It has no influence
    /// on the result. The iterator must come to an end.
    fn merge_iter<H, I>(self, reserve_hint: H, iter: I) -> (res: Self) where
        H: Into<Option<usize>>,
        I: Iterator<Item = Self::Item>,

        requires
            iter.obeys_prophetic_iter_laws(),
            iter.decrease() is Some,
            Self::can_absorb(self.model(), iter.remaining()),
        ensures
            res.model() == Self::absorbed(self.model(), iter.remaining()),
    ;

    /// The neutral element can be merged with every value, on either side,
    /// and leaves it as it is.
    proof fn lemma_empty_is_neutral(value: Self)
        ensures
            Self::can_merge(value.model(), Self::empty_model()),
            Self::can_merge(Self::empty_model(), value.model()),
            Self::merged(value.model(), Self::empty_model()) == value.model(),
            Self::merged(Self::empty_model(), value.model()) == value.model(),
    ;

    /// Merging is associative: where the left-to-right combination of three
    /// values can be represented, so can the right-to-left one, and both agree.
    proof fn lemma_merge_is_associative(a: Self, b: Self, c: Self)
        requires
            Self::can_merge(a.model(), b.model()),
            Self::can_merge(Self::merged(a.model(), b.model()), c.model()),
        ensures
            Self::can_merge(b.model(), c.model()),
            Self::can_merge(a.model(), Self::merged(b.model(), c.model())),
            Self::merged(Self::merged(a.model(), b.model()), c.model()) == Self::merged(
                a.model(),
                Self::merged(b.model(), c.model()),
            ),
    ;
}

/// Trivial implementation of `Mergeable` for the unit type `()`
impl Mergeable for () {
    type Item = ();

    type Model = ();

    open spec fn model(&self) -> () {
        ()
    }

    open spec fn empty_model() -> () {
        ()
    }

    open spec fn can_merge(left: (), right: ()) -> bool {
        true
    }

    open spec fn merged(left: (), right: ()) -> () {
        ()
    }

    open spec fn can_absorb(base: (), items: Seq<()>) -> bool {
        true
    }

    open spec fn absorbed(base: (), items: Seq<()>) -> () {
        ()
    }

    fn empty<H>(_capacity_hint: H) -> (res: Self) where H: Into<Option<usize>> {
    }

    fn merge(self, _other: Self) -> (res: Self) {
    }

    fn merge_iter<H, I>(self, _reserve_hint: H, _iter: I) -> (res: Self) where
        H: Into<Option<usize>>,
        I: Iterator<Item = ()>,
     {
    }

    proof fn lemma_empty_is_neutral(value: ()) {
    }

    proof fn lemma_merge_is_associative(a: (), b: (), c: ()) {
    }
}

/// The sum of a sequence of quantities.
pub open spec fn sum_of(items: Seq<usize>) -> nat
    decreases items.len(),
{
    if items.len() == 0 {
        0
    } else {
        items.first() as nat + sum_of(items.drop_first())
    }
}

/// Trivial implementation of `Mergeable` for quantities
impl Mergeable for usize {
    type Item = usize;

    type Model = nat;

    open spec fn model(&self) -> nat {
        *self as nat
    }

    open spec fn empty_model() -> nat {
        0
    }

    open spec fn can_merge(left: nat, right: nat) -> bool {
        left + right <= usize::MAX
    }

    open spec fn merged(left: nat, right: nat) -> nat {
        left + right
    }

    open spec fn can_absorb(base: nat, items: Seq<usize>) -> bool {
        base + sum_of(items) <= usize::MAX
    }

    open spec fn absorbed(base: nat, items: Seq<usize>) -> nat {
        base + sum_of(items)
    }

    fn empty<H>(_capacity_hint: H) -> (res: Self) where H: Into<Option<usize>> {
        0
    }

    fn merge(self, other: Self) -> (res: Self) {
        self + other
    }

    fn merge_iter<H, I>(self, _reserve_hint: H, iter: I) -> (res: Self) where
        H: Into<Option<usize>>,
        I: Iterator<Item = usize>,
     {
        let ghost items = iter.remaining();
        let mut iter = iter;
        let mut sum: usize = self;
        loop
            invariant
                iter.obeys_prophetic_iter_laws(),
                iter.decrease() is Some,
                sum + sum_of(iter.remaining()) == self + sum_of(items),
                self + sum_of(items) <= usize::MAX,
            ensures
                sum == self + sum_of(items),
            decreases iter.decrease()->0,
        {
            match iter.next() {
                Some(item) => {
                    sum = sum + item;
                },
                None => {
                    break ;
                },
            }
        }
        sum
    }

    proof fn lemma_empty_is_neutral(value: usize) {
    }

    proof fn lemma_merge_is_associative(a: usize, b: usize, c: usize) {
    }
}

/// Vectors merge by concatenation: what is merged in comes after what was there.
impl<T> Mergeable for Vec<T> {
    type Item = T;

    type Model = Seq<T>;

    open spec fn model(&self) -> Seq<T> {
        self@
    }

    open spec fn empty_model() -> Seq<T> {
        Seq::empty()
    }

    open spec fn can_merge(left: Seq<T>, right: Seq<T>) -> bool {
        true
    }

    open spec fn merged(left: Seq<T>, right: Seq<T>) -> Seq<T> {
        left + right
    }

    open spec fn can_absorb(base: Seq<T>, items: Seq<T>) -> bool {
        true
    }

    open spec fn absorbed(base: Seq<T>, items: Seq<T>) -> Seq<T> {
        base + items
    }

    fn empty<H>(capacity_hint: H) -> (res: Self) where H: Into<Option<usize>> {
        let capacity: usize = capacity_hint.into().unwrap_or(0);
        let mut res: Vec<T> = Vec::new();
        if capacity > 0 {
            let _ = res.try_reserve(capacity);
        }
        res
    }

    fn merge(self, other: Self) -> (res: Self) {
        let mut this = self;
        let mut that = other;
        this.append(&mut that);
        this
    }

    fn merge_iter<H, I>(self, reserve_hint: H, iter: I) -> (res: Self) where
        H: Into<Option<usize>>,
        I: Iterator<Item = T>,
    {
        let mut this = self;
        let mut iter = iter;
        let additional: usize = reserve_hint.into().unwrap_or(0);
        let _ = this.try_reserve(additional);
        let ghost items = iter.remaining();
        loop
            invariant
                iter.obeys_prophetic_iter_laws(),
                iter.decrease() is Some,
                this@ + iter.remaining() == self@ + items,
            ensures
                this@ == self@ + items,
            decreases iter.decrease()->0,
        {
            match iter.next() {
                Some(item) => {
                    this.push(item);
                },
                None => {
                    break ;
                },
            }
        }
        this
    }

    proof fn lemma_empty_is_neutral(value: Vec<T>) {
        assert(value@ + Seq::<T>::empty() =~= value@);
        assert(Seq::<T>::empty() + value@ =~= value@);
    }

    proof fn lemma_merge_is_associative(a: Vec<T>, b: Vec<T>, c: Vec<T>) {
        assert((a@ + b@) + c@ =~= a@ + (b@ + c@));
    }
}

/// A result with only an error and the unit type `()` on success
pub type UnitResult<E> = core::result::Result<(), E>;

/// Results merge by their errors: success is neutral, and two failures
/// merge into a failure that carries the merged errors.
impl<E> Mergeable for UnitResult<E> where E: Mergeable + IsEmpty {
    type Item = E::Item;

    /// `None` stands for success, `Some` for the error that a failure carries.
    type Model = Option<E::Model>;

    open spec fn model(&self) -> Option<E::Model> {
        match self {
            Ok(_) => None,
            Err(err) => Some(err.model()),
        }
    }

    open spec fn empty_model() -> Option<E::Model> {
        None
    }

    open spec fn can_merge(left: Option<E::Model>, right: Option<E::Model>) -> bool {
        match (left, right) {
            (Some(e1), Some(e2)) => E::can_merge(e1, e2),
            _ => true,
        }
    }

    open spec fn merged(left: Option<E::Model>, right: Option<E::Model>) -> Option<E::Model> {
        match (left, right) {
            (None, None) => None,
            (None, Some(err)) => Some(err),
            (Some(err), None) => Some(err),
            (Some(e1), Some(e2)) => Some(E::merged(e1, e2)),
        }
    }

    /// Only a failure takes up items.
    open spec fn can_absorb(base: Option<E::Model>, items: Seq<E::Item>) -> bool {
        match base {
            Some(err) => E::can_absorb(err, items),
            None => false,
        }
    }

    open spec fn absorbed(base: Option<E::Model>, items: Seq<E::Item>) -> Option<E::Model> {
        match base {
            Some(err) => Some(E::absorbed(err, items)),
            None => None,
        }
    }

    fn empty<H>(_capacity_hint: H) -> (res: Self) where H: Into<Option<usize>> {
        Ok(())
    }

    fn merge(self, other: Self) -> (res: Self) {
        match (self, other) {
            (Ok(()), Ok(())) => Ok(()),
            (Ok(()), Err(err)) => Err(err),
            (Err(err), Ok(())) => Err(err),
            (Err(e1), Err(e2)) => Err(e1.merge(e2)),
        }
    }

    fn merge_iter<H, I>(self, reserve_hint: H, iter: I) -> (res: Self) where
        H: Into<Option<usize>>,
        I: Iterator<Item = Self::Item>,
     {
        let reserve_hint = reserve_hint.into();
        match self {
            Ok(()) => unreached(),
            Err(e) => Err(e.merge_iter(reserve_hint, iter)),
        }
    }

    proof fn lemma_empty_is_neutral(value: UnitResult<E>) {
    }

    proof fn lemma_merge_is_associative(a: UnitResult<E>, b: UnitResult<E>, c: UnitResult<E>) {
        if let (Err(x), Err(y), Err(z)) = (a, b, c) {
            E::lemma_merge_is_associative(x, y, z);
        }
    }
}

} // verus!
