//! The registry of running operations and their cancellation tokens.
use vstd::prelude::*;
use tokio_util::sync::CancellationToken;
use crate::text::{push_str, str_equal, views_of};

verus! {

#[verifier::external_type_specification]
#[verifier::external_body]
pub struct ExCancellationToken(tokio_util::sync::CancellationToken);

/// `CancellationToken::new`: a fresh token that is not cancelled. Nothing
/// is claimed of it here: whether a token is cancelled is state that all
/// its clones share, which these contracts do not follow.
#[verifier::external_body]
fn new_token() -> CancellationToken {
    CancellationToken::new()
}

/// `CancellationToken::clone`: tokio-util documents that a clone is a handle
/// on the same cancellation state. Claimed: the clone is the same token as
/// far as these contracts tell (they read nothing else of a token).
#[verifier::external_body]
fn share_token(t: &CancellationToken) -> (r: CancellationToken)
    ensures
        r == *t,
{
    t.clone()
}

/// `CancellationToken::cancel`: cancels the token and all its clones.
/// Nothing is claimed (the shared state is not followed here).
#[verifier::external_body]
fn cancel_token(t: &CancellationToken) {
    t.cancel()
}

/// `CancellationToken::is_cancelled`. It reports shared state that other
/// handles change, so nothing is claimed of it.
#[verifier::external_body]
fn token_is_cancelled(t: &CancellationToken) -> bool {
    t.is_cancelled()
}

/// The ids of a list of entries.
pub open spec fn entry_ids(entries: Seq<(String, CancellationToken, bool)>) -> Seq<Seq<char>> {
    entries.map_values(|e: (String, CancellationToken, bool)| e.0@)
}

/// The ids of the entries whose flag is set: those cancelled through the manager.
pub open spec fn flagged_ids(entries: Seq<(String, CancellationToken, bool)>) -> Set<Seq<char>> {
    Set::new(
        |id: Seq<char>|
            exists|k: int| #![trigger entries[k]] 0 <= k < entries.len() && entries[k].0@ == id && entries[k].2,
    )
}

/// Where the entry for `id` stands, among entries with distinct ids.
pub open spec fn entry_index(entries: Seq<(String, CancellationToken, bool)>, id: Seq<char>) -> int {
    choose|k: int| 0 <= k < entries.len() && #[trigger] entries[k].0@ == id
}

/// The token of the entry for `id`, among entries with distinct ids.
pub open spec fn entry_token(entries: Seq<(String, CancellationToken, bool)>, id: Seq<char>) -> CancellationToken {
    entries[entry_index(entries, id)].1
}

/// Manages active operations and their cancellation tokens. Each entry holds
/// the id, the token, and whether the manager has cancelled that token.
pub struct OperationManager {
    operations: Vec<(String, CancellationToken, bool)>,
}

impl View for OperationManager {
    type V = Set<Seq<char>>;

    /// The ids of the operations that are registered.
    closed spec fn view(&self) -> Set<Seq<char>> {
        entry_ids(self.operations@).to_set()
    }
}

impl OperationManager {
    /// Each id is registered once.
    #[verifier::type_invariant]
    closed spec fn ids_unique(&self) -> bool {
        entry_ids(self.operations@).no_duplicates()
    }

    /// The registered operations that the manager has cancelled since they
    /// were registered.
    pub closed spec fn cancelled_ids(&self) -> Set<Seq<char>> {
        flagged_ids(self.operations@)
    }

    /// The token held for the registered operation `id`: the one its
    /// registration handed out, which cancelling `id` cancels.
    pub closed spec fn token_of(&self, id: Seq<char>) -> CancellationToken {
        entry_token(self.operations@, id)
    }

    /// Create a new operation manager
    pub fn new() -> (m: Self)
        ensures
            m@ == Set::<Seq<char>>::empty(),
            m.cancelled_ids() == Set::<Seq<char>>::empty(),
    {
        let m = OperationManager { operations: Vec::new() };
        assert(entry_ids(m.operations@) =~= Seq::empty());
        assert(m@ =~= Set::<Seq<char>>::empty());
        assert(m.cancelled_ids() =~= Set::<Seq<char>>::empty());
        m
    }

    /// Where `id` is registered, if it is.
    fn position_of(&self, id: &str) -> (p: Option<usize>)
        ensures
            p matches Some(i) ==> i < self.operations@.len() && self.operations@[i as int].0@ == id@,
            p is None ==> !entry_ids(self.operations@).contains(id@),
    {
        let n = self.operations.len();
        for i in 0..n
            invariant
                n == self.operations@.len(),
                forall|k: int| 0 <= k < i ==> self.operations@[k].0@ != id@,
        {
            if str_equal(self.operations[i].0.as_str(), id) {
                return Some(i);
            }
        }
        proof {
            if entry_ids(self.operations@).contains(id@) {
                let k = choose|k: int| 0 <= k < n && entry_ids(self.operations@)[k] == id@;
                assert(self.operations@[k].0@ == id@);
            }
        }
        None
    }

    /// Register a new operation and get its cancellation token. An id that
    /// is registered already gets a fresh token in place of the old one, and
    /// counts as not cancelled again.
    pub fn register_operation(&mut self, operation_id: String) -> (t: CancellationToken)
        ensures
            final(self)@ == old(self)@.insert(operation_id@),
            final(self).cancelled_ids() == old(self).cancelled_ids().remove(operation_id@),
            final(self).token_of(operation_id@) == t,
            forall|x: Seq<char>|
                old(self)@.contains(x) && x != operation_id@ ==> #[trigger] final(self).token_of(x)
                    == old(self).token_of(x),
    {
        proof {
            use_type_invariant(&*self);
        }
        let token = new_token();
        let mut ops: Vec<(String, CancellationToken, bool)> = Vec::new();
        std::mem::swap(&mut ops, &mut self.operations);
        let ghost before = ops@;
        match self.position_of_in(&ops, operation_id.as_str()) {
            Some(i) => {
                let (id, _old_token, _cancelled) = ops.remove(i);
                ops.insert(i, (id, share_token(&token), false));
                proof {
                    assert(ops@ =~= before.update(i as int, ops@[i as int]));
                    lemma_set_entry(before, i as int, ops@[i as int]);
                    lemma_update_tokens(before, i as int, ops@[i as int]);
                }
                assert(entry_ids(before)[i as int] == operation_id@);
                assert(entry_ids(before).to_set().contains(operation_id@));
                assert(entry_ids(before).to_set().insert(operation_id@) =~= entry_ids(before).to_set());
            },
            None => {
                ops.push((operation_id, share_token(&token), false));
                assert(entry_ids(ops@) =~= entry_ids(before).push(operation_id@));
                proof {
                    lemma_push_unique(entry_ids(before), operation_id@);
                    lemma_push_unflagged(before, ops@.last());
                    lemma_push_tokens(before, ops@.last());
                    lemma_flagged_registered(before, operation_id@);
                    assert(flagged_ids(before).remove(operation_id@) =~= flagged_ids(before));
                }
            },
        }
        self.operations = ops;
        token
    }

    /// Where `id` stands in `ops`, if it does.
    fn position_of_in(&self, ops: &Vec<(String, CancellationToken, bool)>, id: &str) -> (p: Option<usize>)
        ensures
            p matches Some(i) ==> i < ops@.len() && ops@[i as int].0@ == id@,
            p is None ==> !entry_ids(ops@).contains(id@),
    {
        let n = ops.len();
        for i in 0..n
            invariant
                n == ops@.len(),
                forall|k: int| 0 <= k < i ==> ops@[k].0@ != id@,
        {
            if str_equal(ops[i].0.as_str(), id) {
                return Some(i);
            }
        }
        proof {
            if entry_ids(ops@).contains(id@) {
                let k = choose|k: int| 0 <= k < n && entry_ids(ops@)[k] == id@;
                assert(ops@[k].0@ == id@);
            }
        }
        None
    }

    /// Cancel an operation by ID; whether it was registered. The manager
    /// remembers that it cancelled it.
    pub fn cancel_operation(&mut self, operation_id: &str) -> (found: bool)
        ensures
            found == old(self)@.contains(operation_id@),
            final(self)@ == old(self)@,
            final(self).cancelled_ids() == (if found {
                old(self).cancelled_ids().insert(operation_id@)
            } else {
                old(self).cancelled_ids()
            }),
            forall|x: Seq<char>|
                old(self)@.contains(x) ==> #[trigger] final(self).token_of(x) == old(self).token_of(x),
    {
        proof {
            use_type_invariant(&*self);
        }
        let mut ops: Vec<(String, CancellationToken, bool)> = Vec::new();
        std::mem::swap(&mut ops, &mut self.operations);
        let ghost before = ops@;
        let found = match self.position_of_in(&ops, operation_id) {
            Some(i) => {
                let (id, token, _cancelled) = ops.remove(i);
                cancel_token(&token);
                ops.insert(i, (id, token, true));
                proof {
                    assert(ops@ =~= before.update(i as int, ops@[i as int]));
                    lemma_set_entry(before, i as int, ops@[i as int]);
                    lemma_update_tokens(before, i as int, ops@[i as int]);
                    lemma_token_at(before, i as int);
                    assert(entry_ids(before)[i as int] == operation_id@);
                }
                true
            },
            None => false,
        };
        self.operations = ops;
        found
    }

    /// Unregister an operation (called when operation completes)
    pub fn unregister_operation(&mut self, operation_id: &str)
        ensures
            final(self)@ == old(self)@.remove(operation_id@),
            final(self).cancelled_ids() == old(self).cancelled_ids().remove(operation_id@),
            forall|x: Seq<char>|
                final(self)@.contains(x) ==> #[trigger] final(self).token_of(x) == old(self).token_of(x),
    {
        proof {
            use_type_invariant(&*self);
        }
        let mut ops: Vec<(String, CancellationToken, bool)> = Vec::new();
        std::mem::swap(&mut ops, &mut self.operations);
        let ghost before = ops@;
        match self.position_of_in(&ops, operation_id) {
            Some(i) => {
                let _removed = ops.remove(i);
                proof {
                    lemma_remove_unique(before, i as int);
                    lemma_remove_flagged(before, i as int);
                    lemma_remove_tokens(before, i as int);
                }
            },
            None => {
                assert(entry_ids(before).to_set().remove(operation_id@) =~= entry_ids(before).to_set());
                proof {
                    lemma_flagged_registered(before, operation_id@);
                }
                assert(flagged_ids(before).remove(operation_id@) =~= flagged_ids(before));
            },
        }
        self.operations = ops;
    }

    /// Check if an operation is cancelled: one that the manager cancelled is,
    /// and one that is not registered is not. Otherwise its token is asked, as
    /// other holders of it may have cancelled it.
    pub fn is_cancelled(&self, operation_id: &str) -> (c: bool)
        ensures
            !self@.contains(operation_id@) ==> !c,
            self.cancelled_ids().contains(operation_id@) ==> c,
    {
        proof {
            use_type_invariant(self);
        }
        match self.position_of(operation_id) {
            Some(i) => {
                assert(entry_ids(self.operations@)[i as int] == operation_id@);
                proof {
                    if self.cancelled_ids().contains(operation_id@) {
                        let k = choose|k: int|
                            #![trigger self.operations@[k]]
                            0 <= k < self.operations@.len() && self.operations@[k].0@ == operation_id@
                                && self.operations@[k].2;
                        assert(entry_ids(self.operations@)[k] == entry_ids(self.operations@)[i as int]);
                    }
                }
                if self.operations[i].2 {
                    true
                } else {
                    token_is_cancelled(&self.operations[i].1)
                }
            },
            None => {
                proof {
                    lemma_flagged_registered(self.operations@, operation_id@);
                }
                false
            },
        }
    }

    /// Get all active operation IDs, each once
    pub fn get_active_operations(&self) -> (ids: Vec<String>)
        ensures
            views_of(ids@).to_set() == self@,
            views_of(ids@).no_duplicates(),
    {
        proof {
            use_type_invariant(self);
        }
        let mut ids: Vec<String> = Vec::new();
        let n = self.operations.len();
        for i in 0..n
            invariant
                n == self.operations@.len(),
                views_of(ids@) == entry_ids(self.operations@).take(i as int),
                ids@.len() == i,
        {
            let id = self.operations[i].0.clone();
            assert(id@ == entry_ids(self.operations@)[i as int]);
            let ghost prev = ids@;
            ids.push(id);
            assert forall|k: int| 0 <= k < i + 1 implies #[trigger] views_of(ids@)[k]
                == entry_ids(self.operations@).take(i + 1)[k] by {
                if k < i {
                    assert(ids@[k] == prev[k]);
                    assert(views_of(prev)[k] == entry_ids(self.operations@).take(i as int)[k]);
                }
            }
            assert(views_of(ids@) =~= entry_ids(self.operations@).take(i + 1));
        }
        assert(entry_ids(self.operations@).take(n as int) =~= entry_ids(self.operations@));
        ids
    }

    /// Clear all operations, cancelling each first (useful for cleanup)
    pub fn clear_all(&mut self)
        ensures
            final(self)@ == Set::<Seq<char>>::empty(),
            final(self).cancelled_ids() == Set::<Seq<char>>::empty(),
    {
        let n = self.operations.len();
        for i in 0..n
            invariant
                n == self.operations@.len(),
        {
            cancel_token(&self.operations[i].1);
        }
        self.operations = Vec::new();
        assert(entry_ids(self.operations@) =~= Seq::empty());
        assert(self@ =~= Set::<Seq<char>>::empty());
        assert(self.cancelled_ids() =~= Set::<Seq<char>>::empty());
    }
}

proof fn lemma_push_unique(ids: Seq<Seq<char>>, x: Seq<char>)
    requires
        ids.no_duplicates(),
        !ids.contains(x),
    ensures
        ids.push(x).no_duplicates(),
        ids.push(x).to_set() == ids.to_set().insert(x),
{
    assert forall|a: int, b: int| 0 <= a < b < ids.push(x).len() implies ids.push(x)[a] != ids.push(x)[b] by {
        if b == ids.len() {
            assert(ids[a] == ids.push(x)[a]);
        }
    }
    assert(ids.push(x).to_set() =~= ids.to_set().insert(x)) by {
        assert forall|y: Seq<char>| ids.push(x).to_set().contains(y) <==> ids.to_set().insert(x).contains(y) by {
            if ids.push(x).contains(y) {
                let k = choose|k: int| 0 <= k < ids.push(x).len() && ids.push(x)[k] == y;
                if k < ids.len() {
                    assert(ids[k] == y);
                }
            }
            if ids.contains(y) {
                let k = choose|k: int| 0 <= k < ids.len() && ids[k] == y;
                assert(ids.push(x)[k] == y);
            }
            if y == x {
                assert(ids.push(x)[ids.len() as int] == x);
            }
        }
    }
}

proof fn lemma_remove_unique(entries: Seq<(String, CancellationToken, bool)>, i: int)
    requires
        0 <= i < entries.len(),
        entry_ids(entries).no_duplicates(),
    ensures
        entry_ids(entries.remove(i)).no_duplicates(),
        entry_ids(entries.remove(i)).to_set() == entry_ids(entries).to_set().remove(entries[i].0@),
{
    let ids = entry_ids(entries);
    assert(entry_ids(entries.remove(i)) =~= ids.remove(i));
    assert forall|a: int, b: int| 0 <= a < b < ids.remove(i).len() implies ids.remove(i)[a] != ids.remove(i)[b] by {
        let a2 = if a < i { a } else { a + 1 };
        let b2 = if b < i { b } else { b + 1 };
        assert(ids.remove(i)[a] == ids[a2]);
        assert(ids.remove(i)[b] == ids[b2]);
    }
    assert(ids.remove(i).to_set() =~= ids.to_set().remove(ids[i])) by {
        assert forall|x: Seq<char>| ids.remove(i).to_set().contains(x) <==> ids.to_set().remove(ids[i]).contains(x) by {
            if ids.remove(i).contains(x) {
                let k = choose|k: int| 0 <= k < ids.remove(i).len() && ids.remove(i)[k] == x;
                if k < i {
                    assert(ids[k] == x);
                } else {
                    assert(ids[k + 1] == x);
                }
            }
            if ids.to_set().remove(ids[i]).contains(x) {
                let k = choose|k: int| 0 <= k < ids.len() && ids[k] == x;
                assert(k != i);
                if k < i {
                    assert(ids.remove(i)[k] == x);
                } else {
                    assert(ids.remove(i)[k - 1] == x);
                }
            }
        }
    }
}

/// A flagged id is a registered one.
proof fn lemma_flagged_registered(entries: Seq<(String, CancellationToken, bool)>, id: Seq<char>)
    ensures
        flagged_ids(entries).contains(id) ==> entry_ids(entries).contains(id),
{
    if flagged_ids(entries).contains(id) {
        let k = choose|k: int| #![trigger entries[k]] 0 <= k < entries.len() && entries[k].0@ == id && entries[k].2;
        assert(entry_ids(entries)[k] == id);
    }
}

/// Putting an entry with the same id in place of another: the ids stay, and
/// the id is flagged exactly when the new entry's flag is set.
proof fn lemma_set_entry(
    entries: Seq<(String, CancellationToken, bool)>,
    i: int,
    e: (String, CancellationToken, bool),
)
    requires
        0 <= i < entries.len(),
        entry_ids(entries).no_duplicates(),
        e.0@ == entries[i].0@,
    ensures
        entry_ids(entries.update(i, e)) == entry_ids(entries),
        flagged_ids(entries.update(i, e)) == (if e.2 {
            flagged_ids(entries).insert(e.0@)
        } else {
            flagged_ids(entries).remove(e.0@)
        }),
{
    let updated = entries.update(i, e);
    let ids = entry_ids(entries);
    assert(entry_ids(updated) =~= ids);
    let target = if e.2 {
        flagged_ids(entries).insert(e.0@)
    } else {
        flagged_ids(entries).remove(e.0@)
    };
    assert forall|id: Seq<char>| flagged_ids(updated).contains(id) <==> target.contains(id) by {
        if flagged_ids(updated).contains(id) {
            let k = choose|k: int| #![trigger updated[k]] 0 <= k < updated.len() && updated[k].0@ == id && updated[k].2;
            if k != i {
                assert(updated[k] == entries[k]);
                assert(ids[k] != ids[i]);
                assert(flagged_ids(entries).contains(id));
            }
        }
        if target.contains(id) {
            if id == e.0@ {
                assert(updated[i] == e);
                assert(flagged_ids(updated).contains(id));
            } else {
                let k = choose|k: int| #![trigger entries[k]] 0 <= k < entries.len() && entries[k].0@ == id && entries[k].2;
                assert(k != i);
                assert(updated[k] == entries[k]);
                assert(flagged_ids(updated).contains(id));
            }
        }
    }
    assert(flagged_ids(updated) =~= target);
}

/// Removing the entry at `i` unflags its id and no other.
proof fn lemma_remove_flagged(entries: Seq<(String, CancellationToken, bool)>, i: int)
    requires
        0 <= i < entries.len(),
        entry_ids(entries).no_duplicates(),
    ensures
        flagged_ids(entries.remove(i)) == flagged_ids(entries).remove(entries[i].0@),
{
    let removed = entries.remove(i);
    let ids = entry_ids(entries);
    let target = flagged_ids(entries).remove(entries[i].0@);
    assert forall|id: Seq<char>| flagged_ids(removed).contains(id) <==> target.contains(id) by {
        if flagged_ids(removed).contains(id) {
            let k = choose|k: int| #![trigger removed[k]] 0 <= k < removed.len() && removed[k].0@ == id && removed[k].2;
            let k2 = if k < i { k } else { k + 1 };
            assert(removed[k] == entries[k2]);
            assert(ids[k2] != ids[i]);
            assert(flagged_ids(entries).contains(id));
        }
        if target.contains(id) {
            let k = choose|k: int| #![trigger entries[k]] 0 <= k < entries.len() && entries[k].0@ == id && entries[k].2;
            assert(k != i);
            let k2 = if k < i { k } else { k - 1 };
            assert(removed[k2] == entries[k]);
            assert(flagged_ids(removed).contains(id));
        }
    }
    assert(flagged_ids(removed) =~= target);
}

/// Adding an entry whose flag is clear flags nothing new.
proof fn lemma_push_unflagged(entries: Seq<(String, CancellationToken, bool)>, e: (String, CancellationToken, bool))
    requires
        !e.2,
    ensures
        flagged_ids(entries.push(e)) == flagged_ids(entries),
{
    let pushed = entries.push(e);
    assert forall|id: Seq<char>| flagged_ids(pushed).contains(id) <==> flagged_ids(entries).contains(id) by {
        if flagged_ids(pushed).contains(id) {
            let k = choose|k: int| #![trigger pushed[k]] 0 <= k < pushed.len() && pushed[k].0@ == id && pushed[k].2;
            assert(k < entries.len());
            assert(pushed[k] == entries[k]);
            assert(flagged_ids(entries).contains(id));
        }
        if flagged_ids(entries).contains(id) {
            let k = choose|k: int| #![trigger entries[k]] 0 <= k < entries.len() && entries[k].0@ == id && entries[k].2;
            assert(pushed[k] == entries[k]);
            assert(flagged_ids(pushed).contains(id));
        }
    }
    assert(flagged_ids(pushed) =~= flagged_ids(entries));
}

/// Among entries with distinct ids, the token of the id at `k` is the token at `k`.
proof fn lemma_token_at(entries: Seq<(String, CancellationToken, bool)>, k: int)
    requires
        0 <= k < entries.len(),
        entry_ids(entries).no_duplicates(),
    ensures
        entry_token(entries, entries[k].0@) == entries[k].1,
{
    let id = entries[k].0@;
    assert(entries[k].0@ == id);
    assert(exists|j: int| 0 <= j < entries.len() && #[trigger] entries[j].0@ == id);
    let j = entry_index(entries, id);
    assert(entry_ids(entries)[j] == entries[j].0@);
    assert(entry_ids(entries)[k] == entries[k].0@);
}

/// Where a registered id stands.
proof fn lemma_index_of(entries: Seq<(String, CancellationToken, bool)>, x: Seq<char>) -> (k: int)
    requires
        entry_ids(entries).to_set().contains(x),
    ensures
        0 <= k < entries.len(),
        entries[k].0@ == x,
{
    let k = choose|k: int| 0 <= k < entry_ids(entries).len() && entry_ids(entries)[k] == x;
    k
}

/// Putting an entry with the same id in place of another keeps every other
/// id's token and gives that id the new entry's token.
proof fn lemma_update_tokens(
    entries: Seq<(String, CancellationToken, bool)>,
    i: int,
    e: (String, CancellationToken, bool),
)
    requires
        0 <= i < entries.len(),
        entry_ids(entries).no_duplicates(),
        e.0@ == entries[i].0@,
    ensures
        entry_token(entries.update(i, e), e.0@) == e.1,
        forall|x: Seq<char>|
            entry_ids(entries).to_set().contains(x) && x != e.0@ ==> #[trigger] entry_token(
                entries.update(i, e),
                x,
            ) == entry_token(entries, x),
{
    let updated = entries.update(i, e);
    assert(entry_ids(updated) =~= entry_ids(entries));
    lemma_token_at(updated, i);
    assert forall|x: Seq<char>|
        entry_ids(entries).to_set().contains(x) && x != e.0@ implies #[trigger] entry_token(updated, x)
        == entry_token(entries, x) by {
        let k = lemma_index_of(entries, x);
        assert(k != i);
        assert(updated[k] == entries[k]);
        lemma_token_at(entries, k);
        lemma_token_at(updated, k);
    }
}

/// Removing the entry at `i` keeps every remaining id's token.
proof fn lemma_remove_tokens(entries: Seq<(String, CancellationToken, bool)>, i: int)
    requires
        0 <= i < entries.len(),
        entry_ids(entries).no_duplicates(),
    ensures
        forall|x: Seq<char>|
            entry_ids(entries.remove(i)).to_set().contains(x) ==> #[trigger] entry_token(
                entries.remove(i),
                x,
            ) == entry_token(entries, x),
{
    let removed = entries.remove(i);
    lemma_remove_unique(entries, i);
    assert forall|x: Seq<char>| entry_ids(removed).to_set().contains(x) implies #[trigger] entry_token(
        removed,
        x,
    ) == entry_token(entries, x) by {
        let k = lemma_index_of(removed, x);
        let k2 = if k < i { k } else { k + 1 };
        assert(removed[k] == entries[k2]);
        lemma_token_at(removed, k);
        lemma_token_at(entries, k2);
    }
}

/// Adding an entry with a new id gives it the entry's token and keeps the others'.
proof fn lemma_push_tokens(entries: Seq<(String, CancellationToken, bool)>, e: (String, CancellationToken, bool))
    requires
        entry_ids(entries).no_duplicates(),
        !entry_ids(entries).contains(e.0@),
    ensures
        entry_token(entries.push(e), e.0@) == e.1,
        forall|x: Seq<char>|
            entry_ids(entries).to_set().contains(x) ==> #[trigger] entry_token(entries.push(e), x)
                == entry_token(entries, x),
{
    let pushed = entries.push(e);
    assert(entry_ids(pushed) =~= entry_ids(entries).push(e.0@));
    lemma_push_unique(entry_ids(entries), e.0@);
    lemma_token_at(pushed, entries.len() as int);
    assert forall|x: Seq<char>| entry_ids(entries).to_set().contains(x) implies #[trigger] entry_token(
        pushed,
        x,
    ) == entry_token(entries, x) by {
        let k = lemma_index_of(entries, x);
        assert(pushed[k] == entries[k]);
        lemma_token_at(entries, k);
        lemma_token_at(pushed, k);
    }
}

impl Default for OperationManager {
    fn default() -> (m: Self)
        ensures
            m@ == Set::<Seq<char>>::empty(),
            m.cancelled_ids() == Set::<Seq<char>>::empty(),
    {
        Self::new()
    }
}

/// Registering an operation makes it cancellable by its id, and
/// unregistering it makes a later cancel report that it was not found.
pub proof fn register_then_cancel_finds(before: Set<Seq<char>>, id: Seq<char>)
    ensures
        before.insert(id).contains(id),
        !before.insert(id).remove(id).contains(id),
        !before.remove(id).contains(id),
{
}

/// An operation cancelled through the manager reports that it is cancelled,
/// until its id is registered anew or unregistered.
pub proof fn cancel_is_remembered(cancelled: Set<Seq<char>>, id: Seq<char>)
    ensures
        cancelled.insert(id).contains(id),
        !cancelled.insert(id).remove(id).contains(id),
{
}

/// What asking to cancel `operation_id` answers: nothing when it was found,
/// else a message that it is not running.
pub fn cancel_answer(found: bool, operation_id: &str) -> (r: Result<(), String>)
    ensures
        found ==> r is Ok,
        !found ==> (r matches Err(m) && m@ == "Operation "@ + operation_id@
            + " not found or already completed"@),
{
    if found {
        Ok(())
    } else {
        let mut m = String::from_str("Operation ");
        push_str(&mut m, operation_id);
        push_str(&mut m, " not found or already completed");
        Err(m)
    }
}

} // verus!
