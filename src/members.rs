use dashmap::DashMap;
use vstd::prelude::*;

verus! {

#[verifier::external_type_specification]
#[verifier::external_body]
#[verifier::reject_recursive_types(K)]
#[verifier::reject_recursive_types(V)]
#[verifier::reject_recursive_types(S)]
pub struct ExDashMap<K, V, S>(DashMap<K, V, S>);

/// What a membership table holds: each username with the connection it belongs to.
pub uninterp spec fn members_of(m: DashMap<String, u64>) -> Map<Seq<char>, u64>;

/// The largest capacity hint a membership table is created with.
pub const MAX_CAPACITY_HINT: usize = 65536;

/// Relies on `DashMap::with_capacity`: a new map is empty. Small hints keep
/// its shard rounding and allocation from overflowing.
#[verifier::external_body]
pub(crate) fn new_table(capacity: usize) -> (r: DashMap<String, u64>)
    requires
        capacity <= MAX_CAPACITY_HINT,
    ensures
        members_of(r).dom() == Set::<Seq<char>>::empty(),
{
    DashMap::with_capacity(capacity)
}

/// Relies on `DashMap::contains_key`: true exactly when the key is present.
#[verifier::external_body]
pub(crate) fn table_contains(m: &DashMap<String, u64>, name: &String) -> (r: bool)
    ensures
        r == members_of(*m).contains_key(name@),
{
    m.contains_key(name)
}

/// Relies on `DashMap::insert`: the key maps to the value afterwards and no
/// other entry changes.
#[verifier::external_body]
pub(crate) fn table_insert(m: &mut DashMap<String, u64>, name: String, conn: u64)
    ensures
        members_of(*final(m)) == members_of(*old(m)).insert(name@, conn),
{
    m.insert(name, conn);
}

/// Relies on `DashMap::remove`: the key is absent afterwards, no other entry
/// changes, and the removed value is returned when there was one.
#[verifier::external_body]
pub(crate) fn table_remove(m: &mut DashMap<String, u64>, name: &String) -> (r: Option<u64>)
    ensures
        members_of(*final(m)) == members_of(*old(m)).remove(name@),
        r == (if members_of(*old(m)).contains_key(name@) {
            Some(members_of(*old(m))[name@])
        } else {
            None::<u64>
        }),
{
    m.remove(name).map(|(_, conn)| conn)
}

/// Relies on `DashMap::iter`: it yields each entry of the map exactly once, in
/// an order that the map does not promise.
#[verifier::external_body]
pub(crate) fn table_entries(m: &DashMap<String, u64>) -> (r: Vec<(String, u64)>)
    ensures
        forall|i: int|
            0 <= i < r@.len() ==> #[trigger] members_of(*m).contains_key(r@[i].0@)
                && members_of(*m)[r@[i].0@] == r@[i].1,
        forall|k: Seq<char>|
            #[trigger] members_of(*m).contains_key(k) ==> exists|i: int|
                0 <= i < r@.len() && r@[i].0@ == k,
        forall|i: int, j: int|
            0 <= i < r@.len() && 0 <= j < r@.len() && i != j ==> r@[i].0@ != r@[j].0@,
{
    m.iter().map(|e| (e.key().clone(), *e.value())).collect()
}

} // verus!
