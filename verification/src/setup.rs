use vstd::prelude::*;

verus! {

/// The service counts as freshly set up while exactly one profile (the
/// default administrator seeded at start-up) exists.
pub open spec fn new_setup_spec(profile_count: nat) -> bool {
    profile_count == 1
}

/// Decides the `newSetup` flag of the server state from the number of
/// stored user profiles.
pub fn is_new_setup(profile_count: usize) -> (fresh: bool)
    ensures
        fresh == new_setup_spec(profile_count as nat),
        fresh <==> profile_count == 1,
{
    profile_count == 1
}

/// The service counts as freshly set up for one profile, and for no other
/// number of profiles.
pub proof fn lemma_new_setup_exactly_one(profile_count: nat)
    ensures
        new_setup_spec(profile_count) <==> profile_count == 1,
        new_setup_spec(1),
        profile_count != 1 ==> !new_setup_spec(profile_count),
{
}

} // verus!
