//! Lists of records identified by a string id (profiles, accounts): lookup,
//! removal, replacement and insertion by id, and the "active id" that points
//! into such a list.
use vstd::prelude::*;

verus! {

/// A record identified by a string id.
pub trait Keyed {
    /// The id, as characters.
    spec fn key(&self) -> Seq<char>;

    /// The id.
    fn key_str(&self) -> (r: &str)
        ensures
            r@ == self.key(),
    ;
}

/// Some record of `s` has id `k`.
pub open spec fn has_key<T: Keyed>(s: Seq<T>, k: Seq<char>) -> bool {
    exists|i: int| 0 <= i < s.len() && #[trigger] s[i].key() == k
}

/// `i` is the position of the first record of `s` with id `k`.
pub open spec fn is_first_key<T: Keyed>(s: Seq<T>, k: Seq<char>, i: int) -> bool {
    &&& 0 <= i < s.len()
    &&& s[i].key() == k
    &&& forall|j: int| 0 <= j < i ==> #[trigger] s[j].key() != k
}

/// The position of the first record of `s` with id `k` (meaningful when `has_key(s, k)`).
pub open spec fn first_key_index<T: Keyed>(s: Seq<T>, k: Seq<char>) -> int {
    choose|i: int| is_first_key(s, k, i)
}

/// The records whose id is not `k`.
pub open spec fn key_differs<T: Keyed>(k: Seq<char>) -> spec_fn(T) -> bool {
    |x: T| x.key() != k
}

/// The records of `s` whose id is not `k`, in order.
pub open spec fn without_key<T: Keyed>(s: Seq<T>, k: Seq<char>) -> Seq<T> {
    s.filter(key_differs(k))
}

/// `s` with its first record of id `x.key()` replaced by `x`; `s` itself when
/// it holds no such record.
pub open spec fn replace_keyed<T: Keyed>(s: Seq<T>, x: T) -> Seq<T> {
    if has_key(s, x.key()) {
        s.update(first_key_index(s, x.key()), x)
    } else {
        s
    }
}

/// `s` with its first record of id `x.key()` replaced by `x`, or with `x`
/// appended when it holds no such record.
pub open spec fn upsert_keyed<T: Keyed>(s: Seq<T>, x: T) -> Seq<T> {
    if has_key(s, x.key()) {
        replace_keyed(s, x)
    } else {
        s.push(x)
    }
}

/// The id of an optional active record, as characters.
pub open spec fn opt_chars(o: Option<String>) -> Option<Seq<char>> {
    match o {
        Some(s) => Some(s@),
        None => None,
    }
}

/// The active id is absent or names a record of `s`.
pub open spec fn active_valid<T: Keyed>(s: Seq<T>, active: Option<Seq<char>>) -> bool {
    match active {
        Some(a) => has_key(s, a),
        None => true,
    }
}

/// The active id after the records of id `k` were removed, leaving `rest`:
/// unchanged unless it was `k`, in which case the first remaining record
/// becomes active, or none when nothing remains.
pub open spec fn active_after_removal<T: Keyed>(
    active: Option<Seq<char>>,
    rest: Seq<T>,
    k: Seq<char>,
) -> Option<Seq<char>> {
    if active == Some(k) {
        if rest.len() == 0 {
            None
        } else {
            Some(rest[0].key())
        }
    } else {
        active
    }
}

/// When some record has id `k`, a first one exists.
pub proof fn lemma_first_key_exists<T: Keyed>(s: Seq<T>, k: Seq<char>)
    requires
        has_key(s, k),
    ensures
        is_first_key(s, k, first_key_index(s, k)),
    decreases s.len(),
{
    let i = choose|i: int| 0 <= i < s.len() && #[trigger] s[i].key() == k;
    if forall|j: int| 0 <= j < i ==> #[trigger] s[j].key() != k {
        assert(is_first_key(s, k, i));
    } else {
        let j = choose|j: int| 0 <= j < i && #[trigger] s[j].key() == k;
        let t = s.take(i);
        assert(t[j].key() == k);
        lemma_first_key_exists(t, k);
        let f = first_key_index(t, k);
        assert forall|jj: int| 0 <= jj < f implies #[trigger] s[jj].key() != k by {
            assert(s[jj] == t[jj]);
        }
        assert(s[f] == t[f]);
        assert(is_first_key(s, k, f));
    }
}

/// The first record of id `k` is unique.
pub proof fn lemma_first_key_unique<T: Keyed>(s: Seq<T>, k: Seq<char>, i: int)
    requires
        is_first_key(s, k, i),
    ensures
        first_key_index(s, k) == i,
{
    assert(has_key(s, k)) by {
        assert(s[i].key() == k);
    }
    lemma_first_key_exists(s, k);
    let f = first_key_index(s, k);
    if f < i {
        assert(s[f].key() != k);
    } else if i < f {
        assert(s[i].key() != k);
    }
}

/// The position of the first record of `s` with id `k`, if any.
pub fn find_key<T: Keyed>(s: &Vec<T>, k: &str) -> (r: Option<usize>)
    ensures
        match r {
            Some(i) => is_first_key(s@, k@, i as int),
            None => !has_key(s@, k@),
        },
{
    let n = s.len();
    let mut i: usize = 0;
    while i < n
        invariant
            n == s@.len(),
            i <= n,
            forall|j: int| 0 <= j < i ==> #[trigger] s@[j].key() != k@,
        decreases n - i,
    {
        if crate::text::str_eq(s[i].key_str(), k) {
            return Some(i);
        }
        i = i + 1;
    }
    None
}

/// The records of `s` whose id is not `k`, in order (what `Vec::retain` keeps).
pub fn remove_key<T: Keyed>(s: Vec<T>, k: &str) -> (r: Vec<T>)
    ensures
        r@ == without_key(s@, k@),
{
    let ghost whole = s@;
    let ghost pred = key_differs::<T>(k@);
    let mut rest = s;
    let mut kept: Vec<T> = Vec::new();
    let mut taken: Vec<T> = Vec::new();
    // Reverse the records, then move them back in order, dropping those of id `k`.
    while rest.len() > 0
        invariant
            whole == rest@ + taken@.reverse(),
        decreases rest.len(),
    {
        let x = rest.pop().unwrap();
        taken.push(x);
        assert(rest@ + taken@.reverse() == whole);
    }
    assert(taken@.reverse() == whole);
    let ghost n = whole.len();
    while taken.len() > 0
        invariant
            n == whole.len(),
            pred == key_differs::<T>(k@),
            taken@.reverse() == whole.skip(n - taken@.len()),
            taken@.len() <= n,
            kept@ == whole.take(n - taken@.len()).filter(pred),
        decreases taken.len(),
    {
        let ghost before = taken@;
        let x = taken.pop().unwrap();
        let ghost i = n - before.len();
        assert(before.reverse()[0] == x);
        assert(whole[i] == x);
        assert(whole.take(i + 1) == whole.take(i).push(x));
        proof {
            whole.take(i).lemma_filter_push(x, pred);
        }
        assert(pred(x) == (x.key() != k@));
        assert(taken@.reverse() == whole.skip(i + 1)) by {
            assert(taken@.reverse() == before.reverse().skip(1));
        }
        if !crate::text::str_eq(x.key_str(), k) {
            kept.push(x);
        }
    }
    assert(whole.take(n as int) == whole);
    kept
}

/// Replaces the first record with the id of `x` by `x`; reports whether one
/// was found. Nothing changes when none was.
pub fn replace_key<T: Keyed>(s: &mut Vec<T>, x: T) -> (found: bool)
    ensures
        found == has_key(old(s)@, x.key()),
        final(s)@ == replace_keyed(old(s)@, x),
{
    match find_key(s, x.key_str()) {
        Some(i) => {
            proof {
                lemma_first_key_unique(s@, x.key(), i as int);
            }
            s.set(i, x);
            true
        },
        None => false,
    }
}

/// Replaces the first record with the id of `x` by `x`, or appends `x` when
/// there is none.
pub fn upsert_key<T: Keyed>(s: &mut Vec<T>, x: T)
    ensures
        final(s)@ == upsert_keyed(old(s)@, x),
{
    match find_key(s, x.key_str()) {
        Some(i) => {
            proof {
                lemma_first_key_unique(s@, x.key(), i as int);
            }
            s.set(i, x);
        },
        None => {
            s.push(x);
        },
    }
}

// ─── Laws ────────────────────────────────────────────────────────────────────

/// Removing the records of an id leaves none with that id, keeps every other
/// record, and keeps a valid active id valid: an active id that was removed
/// moves to the first remaining record (or to none).
pub proof fn lemma_removal_keeps_active_valid<T: Keyed>(
    s: Seq<T>,
    active: Option<Seq<char>>,
    k: Seq<char>,
)
    requires
        active_valid(s, active),
    ensures
        !has_key(without_key(s, k), k),
        forall|i: int| 0 <= i < s.len() && s[i].key() != k ==> without_key(s, k).contains(#[trigger] s[i]),
        active_valid(without_key(s, k), active_after_removal(active, without_key(s, k), k)),
        active_after_removal(active, without_key(s, k), k) != Some(k),
{
    let pred = key_differs::<T>(k);
    let rest = without_key(s, k);
    assert forall|i: int| 0 <= i < rest.len() implies #[trigger] rest[i].key() != k by {
        s.lemma_filter_pred(pred, i);
    }
    assert forall|i: int| 0 <= i < s.len() && s[i].key() != k implies rest.contains(#[trigger] s[i]) by {
        s.lemma_filter_contains(pred, i);
    }
    if let Some(a) = active {
        if a != k {
            let i = choose|i: int| 0 <= i < s.len() && #[trigger] s[i].key() == a;
            s.lemma_filter_contains(pred, i);
            let j = choose|j: int| 0 <= j < rest.len() && rest[j] == s[i];
            assert(rest[j].key() == a);
        } else if rest.len() > 0 {
            assert(rest[0].key() == rest[0].key());
        }
    }
}

/// Appending a record keeps a valid active id valid, and when there was no
/// active id the appended record's id is a valid one.
pub proof fn lemma_push_keeps_active_valid<T: Keyed>(s: Seq<T>, active: Option<Seq<char>>, x: T)
    requires
        active_valid(s, active),
    ensures
        active_valid(
            s.push(x),
            match active {
                Some(a) => Some(a),
                None => Some(x.key()),
            },
        ),
        has_key(s.push(x), x.key()),
{
    let t = s.push(x);
    assert(t[s.len() as int] == x);
    if let Some(a) = active {
        let i = choose|i: int| 0 <= i < s.len() && #[trigger] s[i].key() == a;
        assert(t[i] == s[i]);
    }
}

/// Replacing a record by one with the same id keeps the ids at every
/// position, so it keeps which ids are present and a valid active id valid.
pub proof fn lemma_replace_keeps_ids<T: Keyed>(s: Seq<T>, active: Option<Seq<char>>, x: T)
    requires
        active_valid(s, active),
    ensures
        replace_keyed(s, x).len() == s.len(),
        forall|i: int| 0 <= i < s.len() ==> #[trigger] replace_keyed(s, x)[i].key() == s[i].key(),
        forall|k: Seq<char>| has_key(replace_keyed(s, x), k) <==> has_key(s, k),
        active_valid(replace_keyed(s, x), active),
{
    let t = replace_keyed(s, x);
    if has_key(s, x.key()) {
        lemma_first_key_exists(s, x.key());
    }
    assert forall|i: int| 0 <= i < s.len() implies #[trigger] t[i].key() == s[i].key() by {}
    assert forall|k: Seq<char>| has_key(t, k) <==> has_key(s, k) by {
        if has_key(t, k) {
            let i = choose|i: int| 0 <= i < t.len() && #[trigger] t[i].key() == k;
            assert(s[i].key() == k);
        }
        if has_key(s, k) {
            let i = choose|i: int| 0 <= i < s.len() && #[trigger] s[i].key() == k;
            assert(t[i].key() == k);
        }
    }
}

/// Storing a record by id keeps a valid active id valid, and when there was
/// no active id the stored record's id is a valid one; afterwards a record
/// with that id is present, and the first one is the stored record.
pub proof fn lemma_upsert_keeps_active_valid<T: Keyed>(s: Seq<T>, active: Option<Seq<char>>, x: T)
    requires
        active_valid(s, active),
    ensures
        active_valid(
            upsert_keyed(s, x),
            match active {
                Some(a) => Some(a),
                None => Some(x.key()),
            },
        ),
        has_key(upsert_keyed(s, x), x.key()),
        upsert_keyed(s, x)[first_key_index(upsert_keyed(s, x), x.key())] == x,
{
    let t = upsert_keyed(s, x);
    if has_key(s, x.key()) {
        lemma_replace_keeps_ids(s, active, x);
        lemma_first_key_exists(s, x.key());
        let f = first_key_index(s, x.key());
        assert(t[f] == x);
        assert(is_first_key(t, x.key(), f));
        lemma_first_key_unique(t, x.key(), f);
        if active is None {
            assert(t[f].key() == x.key());
        }
    } else {
        lemma_push_keeps_active_valid(s, active, x);
        let n = s.len() as int;
        assert(t[n] == x);
        assert forall|j: int| 0 <= j < n implies #[trigger] t[j].key() != x.key() by {
            assert(t[j] == s[j]);
        }
        assert(is_first_key(t, x.key(), n));
        lemma_first_key_unique(t, x.key(), n);
    }
}

} // verus!
