//! The relay's signing key set and its lifecycle across sessions.
//!
//! The set of identities authorized to submit relay actions is initialized at
//! most once from a non-empty genesis set, and on each session rotation that
//! changed the validator set it is replaced wholesale by the de-duplicated
//! union of the current and the queued validator keys, kept in ascending
//! order. It is never partially updated.

use vstd::prelude::*;

verus! {

/// A signing identity authorized to submit relay actions.
pub type AuthorityId = u64;

/// The marker of the relay's signing-identity kind: relay submissions are
/// signed with keys the node's keystore registers under the relay's own key
/// type.
pub struct RelayAuthId;

/// A key list in strictly ascending order holds no duplicates.
pub open spec fn sorted_strict(s: Seq<AuthorityId>) -> bool {
    forall|i: int, j: int| 0 <= i < j < s.len() ==> s[i] < s[j]
}

/// The relay module's stored state: the authorized key set.
pub struct Module {
    /// The authorized keys, empty until initialized.
    pub keys: Vec<AuthorityId>,
}

/// Insert a key into a strictly ascending list, keeping order and dropping a
/// duplicate.
fn insert_sorted(v: &mut Vec<AuthorityId>, x: AuthorityId)
    requires
        sorted_strict(old(v)@),
    ensures
        sorted_strict(final(v)@),
        forall|y: AuthorityId| #[trigger] final(v)@.contains(y) <==> (old(v)@.contains(y) || y
            == x),
{
    let mut i: usize = 0;
    while i < v.len() && v[i] < x
        invariant
            0 <= i <= v@.len(),
            sorted_strict(v@),
            v@ == old(v)@,
            forall|j: int| 0 <= j < i ==> v@[j] < x,
        decreases v@.len() - i,
    {
        i += 1;
    }
    if i < v.len() {
        let ghost pre = v@;
        if v[i] == x {
            proof {
                assert(v@.contains(x)) by {
                    assert(v@[i as int] == x);
                }
            }
            return;
        }
        v.insert(i, x);
        proof {
            assert forall|y: AuthorityId| v@.contains(y) implies (pre.contains(y) || y == x) by {
                let k = choose|k: int| 0 <= k < v@.len() && v@[k] == y;
                if k < i {
                    assert(pre[k] == y);
                } else if k > i {
                    assert(pre[k - 1] == y);
                }
            }
            assert forall|y: AuthorityId| (pre.contains(y) || y == x) implies v@.contains(y) by {
                if y == x {
                    assert(v@[i as int] == y);
                } else {
                    let k = choose|k: int| 0 <= k < pre.len() && pre[k] == y;
                    if k < i {
                        assert(v@[k] == y);
                    } else {
                        assert(v@[k + 1] == y);
                    }
                }
            }
            assert forall|a: int, b: int| 0 <= a < b < v@.len() implies v@[a] < v@[b] by {
                assert(pre[i as int] != x);
                assert(pre[i as int] >= x);
            }
        }
    } else {
        let ghost pre = v@;
        v.push(x);
        proof {
            assert forall|y: AuthorityId| v@.contains(y) implies (pre.contains(y) || y == x) by {
                let k = choose|k: int| 0 <= k < v@.len() && v@[k] == y;
                if k < pre.len() {
                    assert(pre[k] == y);
                }
            }
            assert forall|y: AuthorityId| (pre.contains(y) || y == x) implies v@.contains(y) by {
                if y == x {
                    assert(v@[pre.len() as int] == y);
                } else {
                    let k = choose|k: int| 0 <= k < pre.len() && pre[k] == y;
                    assert(v@[k] == y);
                }
            }
        }
    }
}

/// Add every key of `src` to a strictly ascending list.
fn insert_all(v: &mut Vec<AuthorityId>, src: &Vec<AuthorityId>)
    requires
        sorted_strict(old(v)@),
    ensures
        sorted_strict(final(v)@),
        forall|y: AuthorityId| #[trigger] final(v)@.contains(y) <==> (old(v)@.contains(y)
            || src@.contains(y)),
{
    let mut i: usize = 0;
    while i < src.len()
        invariant
            0 <= i <= src@.len(),
            sorted_strict(v@),
            forall|y: AuthorityId| v@.contains(y) <==> (old(v)@.contains(y)
                || src@.take(i as int).contains(y)),
        decreases src@.len() - i,
    {
        insert_sorted(v, src[i]);
        proof {
            let longer = src@.take(i + 1);
            let shorter = src@.take(i as int);
            assert(longer =~= shorter.push(src@[i as int]));
            assert forall|y: AuthorityId| longer.contains(y) implies (shorter.contains(y) || y
                == src@[i as int]) by {
                let k = choose|k: int| 0 <= k < longer.len() && longer[k] == y;
                if k < i {
                    assert(shorter[k] == y);
                }
            }
            assert forall|y: AuthorityId| (shorter.contains(y) || y == src@[i as int]) implies
                longer.contains(y) by {
                if y == src@[i as int] {
                    assert(longer[i as int] == y);
                } else {
                    let k = choose|k: int| 0 <= k < shorter.len() && shorter[k] == y;
                    assert(longer[k] == y);
                }
            }
        }
        i += 1;
    }
    proof {
        assert(src@.take(i as int) =~= src@);
    }
}

impl Module {
    /// A module with no keys stored yet.
    pub fn new() -> (m: Module)
        ensures
            m.keys@.len() == 0,
    {
        Module { keys: Vec::new() }
    }

    /// One-time initialization: a non-empty key set may only be stored while
    /// none is stored yet; an empty one changes nothing.
    pub fn initialize_keys(&mut self, keys: &Vec<AuthorityId>)
        requires
            keys@.len() > 0 ==> old(self).keys@.len() == 0,
        ensures
            keys@.len() > 0 ==> final(self).keys@ == keys@,
            keys@.len() == 0 ==> final(self).keys@ == old(self).keys@,
    {
        if !keys.is_empty() {
            let copy = keys.clone();
            proof {
                assert(copy@ =~= keys@);
            }
            self.keys = copy;
        }
    }

    /// The genesis session hands the initial validator keys over; they become
    /// the key set by the one-time initialization.
    pub fn on_genesis_session(&mut self, validators: &Vec<AuthorityId>)
        requires
            validators@.len() > 0 ==> old(self).keys@.len() == 0,
        ensures
            validators@.len() > 0 ==> final(self).keys@ == validators@,
            validators@.len() == 0 ==> final(self).keys@ == old(self).keys@,
    {
        self.initialize_keys(validators);
    }

    /// A session rotation that changed the validator set replaces the stored
    /// keys wholesale by the de-duplicated union of the current and the
    /// queued validator keys, in ascending order; an unchanged set is left
    /// alone.
    pub fn on_new_session(
        &mut self,
        changed: bool,
        validators: &Vec<AuthorityId>,
        queued_validators: &Vec<AuthorityId>,
    )
        ensures
            !changed ==> final(self).keys@ == old(self).keys@,
            changed ==> sorted_strict(final(self).keys@),
            changed ==> forall|y: AuthorityId|
                final(self).keys@.contains(y) <==> (validators@.contains(y)
                    || queued_validators@.contains(y)),
    {
        if changed {
            let mut union: Vec<AuthorityId> = Vec::new();
            let ghost empty = union@;
            insert_all(&mut union, validators);
            let ghost first = union@;
            insert_all(&mut union, queued_validators);
            proof {
                assert forall|y: AuthorityId| union@.contains(y) <==> (validators@.contains(y)
                    || queued_validators@.contains(y)) by {
                    assert(!empty.contains(y));
                    assert(first.contains(y) <==> (empty.contains(y) || validators@.contains(
                        y,
                    )));
                    assert(union@.contains(y) <==> (first.contains(y)
                        || queued_validators@.contains(y)));
                }
            }
            self.keys = union;
        }
    }
}

/// Law: a rotated key set holds no duplicates — a strictly ascending list,
/// as `on_new_session` leaves behind, mentions every key at most once.
pub proof fn lemma_rotated_keys_deduplicated(keys: Seq<AuthorityId>)
    requires
        sorted_strict(keys),
    ensures
        forall|i: int, j: int| 0 <= i < j < keys.len() ==> keys[i] != keys[j],
{
}

} // verus!
