//! Random choices.
use rand::seq::SliceRandom;
use rand::SeedableRng;

use vstd::prelude::*;

verus! {

/// The small generator of the `rand` crate.
#[verifier::external_type_specification]
#[verifier::external_body]
pub struct ExSmallRng(rand::rngs::SmallRng);

/// Calls `seed_from_u64` of `rand::rngs::SmallRng`. Nothing is claimed of the generator: which
/// numbers a seed leads to differs between platforms and versions.
#[verifier::external_body]
pub(crate) fn seeded_rng(seed: u64) -> (r: rand::rngs::SmallRng) {
    rand::rngs::SmallRng::seed_from_u64(seed)
}

/// Calls `choose` of `rand::seq::SliceRandom` on a copy of the generator: one of the items, `None`
/// where there are none, and the generator as the call leaves it. Which one depends on the state
/// of the generator.
#[verifier::external_body]
pub(crate) fn choose_from<'a, T>(items: &'a Vec<T>, rng: &rand::rngs::SmallRng) -> (r: (
    Option<&'a T>,
    rand::rngs::SmallRng,
))
    ensures
        match r.0 {
            Some(x) => items@.contains(*x),
            None => items@.len() == 0,
        },
{
    let mut next = rng.clone();
    (items.as_slice().choose(&mut next), next)
}

/// Whether `rng` is a generator that `seeded_rng` gives for this seed.
pub closed spec fn is_seeded(seed: u64, rng: rand::rngs::SmallRng) -> bool {
    call_ensures(seeded_rng, (seed,), rng)
}

/// Whether `choose_from`, on all of these items and with the generator `rng`, gives `chosen` and
/// leaves the generator as `next`.
pub closed spec fn is_choice<T>(
    items: Seq<T>,
    rng: rand::rngs::SmallRng,
    chosen: T,
    next: rand::rngs::SmallRng,
) -> bool {
    exists|list: Vec<T>, given: &T|
        list@ == items && *given == chosen && #[trigger] call_ensures(
            choose_from::<T>,
            (&list, &rng),
            (Some(given), next),
        )
}

/// A generator with a seed.
pub(crate) fn start_generator(seed: u64) -> (r: rand::rngs::SmallRng)
    ensures
        is_seeded(seed, r),
        call_ensures(seeded_rng, (seed,), r),
{
    seeded_rng(seed)
}

/// A choice of the generator among all items. The generator moves on.
pub(crate) fn draw<'a, T>(items: &'a Vec<T>, rng: &mut rand::rngs::SmallRng) -> (r: &'a T)
    requires
        items@.len() > 0,
    ensures
        items@.contains(*r),
        is_choice(items@, *old(rng), *r, *final(rng)),
        call_ensures(choose_from::<T>, (items, &*old(rng)), (Some(r), *final(rng))),
{
    let (chosen, next) = choose_from(items, rng);
    *rng = next;
    match chosen {
        Some(r) => r,
        None => vstd::pervasive::unreached(),
    }
}

/// What is called a choice is what the call of the generator on the whole list gives, and the
/// generator that it leaves; it is one of the items.
pub(crate) proof fn law_choice_is_made_by_the_generator<T>(
    items: Seq<T>,
    rng: rand::rngs::SmallRng,
    chosen: T,
    next: rand::rngs::SmallRng,
)
    requires
        is_choice(items, rng, chosen, next),
    ensures
        exists|list: Vec<T>, given: &T|
            list@ == items && *given == chosen && #[trigger] call_ensures(
                choose_from::<T>,
                (&list, &rng),
                (Some(given), next),
            ),
        items.contains(chosen),
{
    let (list, given) = choose|list: Vec<T>, given: &T|
        list@ == items && *given == chosen && #[trigger] call_ensures(
            choose_from::<T>,
            (&list, &rng),
            (Some(given), next),
        );
    assert(list@.contains(*given));
}

/// What is called a seeded generator is what the call with this seed gives.
pub(crate) proof fn law_seeded_generator_has_its_seed(seed: u64, rng: rand::rngs::SmallRng)
    requires
        is_seeded(seed, rng),
    ensures
        call_ensures(seeded_rng, (seed,), rng),
{
}

} // verus!
