//! The ordered list of identities.

use vstd::prelude::*;
use crate::error::GitIdError;
use crate::identity::{GitId, Identity};
use crate::order::{
    email_le, email_not_after, lemma_email_le_antisymmetric, lemma_email_le_reflexive,
    lemma_email_le_total, lemma_email_le_transitive,
};

verus! {

/// The identities of a list are in order of their email addresses.
pub open spec fn ordered(s: Seq<Identity>) -> bool {
    forall|i: int, j: int| 0 <= i < j < s.len() ==> email_le(#[trigger] s[i].email, #[trigger] s[j].email)
}

/// The entries of `s` whose email address is `email`, in the order of `s`.
pub open spec fn with_email(s: Seq<Identity>, email: Seq<char>) -> Seq<Identity> {
    s.filter(|id: Identity| id.email == email)
}

/// The place of `x` in `s`: just behind the last entry whose email address
/// is not after that of `x`.
pub open spec fn place(s: Seq<Identity>, x: Identity) -> int
    decreases s.len(),
{
    if s.len() == 0 {
        0
    } else if email_le(s.last().email, x.email) {
        s.len() as int
    } else {
        place(s.drop_last(), x)
    }
}

/// The list `s` put in order of email address, entries with the same
/// address staying in the order in which they stood.
pub open spec fn sorted_by_email(s: Seq<Identity>) -> Seq<Identity>
    decreases s.len(),
{
    if s.len() == 0 {
        s
    } else {
        let rest = sorted_by_email(s.drop_last());
        rest.insert(place(rest, s.last()), s.last())
    }
}

/// The list after adding `x`: unchanged if `x` is an entry already, else
/// with `x` appended and put in order.
pub open spec fn added(s: Seq<Identity>, x: Identity) -> Seq<Identity> {
    if s.contains(x) {
        s
    } else {
        sorted_by_email(s.push(x))
    }
}

/// The models of the identities of `v`, in order.
pub open spec fn models(v: Seq<GitId>) -> Seq<Identity> {
    v.map_values(|id: GitId| id@)
}

/// A list of identities, as stored and shown.
#[derive(Debug)]
pub struct GitIds {
    pub ids: Vec<GitId>,
}

impl View for GitIds {
    type V = Seq<Identity>;

    open spec fn view(&self) -> Seq<Identity> {
        models(self.ids@)
    }
}

proof fn lemma_place_bounds(s: Seq<Identity>, x: Identity)
    ensures
        0 <= place(s, x) <= s.len(),
        forall|i: int| place(s, x) <= i < s.len() ==> !email_le(#[trigger] s[i].email, x.email),
        place(s, x) > 0 ==> email_le(s[place(s, x) - 1].email, x.email),
    decreases s.len(),
{
    if s.len() > 0 && !email_le(s.last().email, x.email) {
        let rest = s.drop_last();
        lemma_place_bounds(rest, x);
        assert forall|i: int| place(s, x) <= i < s.len() implies !email_le(
            #[trigger] s[i].email,
            x.email,
        ) by {
            if i < rest.len() {
                assert(s[i] == rest[i]);
            }
        }
    }
}

proof fn lemma_insert_keeps_order(s: Seq<Identity>, x: Identity)
    requires
        ordered(s),
    ensures
        ordered(s.insert(place(s, x), x)),
{
    let p = place(s, x);
    let t = s.insert(p, x);
    lemma_place_bounds(s, x);
    assert forall|i: int, j: int| 0 <= i < j < t.len() implies email_le(
        #[trigger] t[i].email,
        #[trigger] t[j].email,
    ) by {
        if j == p {
            assert(t[i] == s[i]);
            if i < p - 1 {
                assert(email_le(s[i].email, s[p - 1].email));
            } else {
                lemma_email_le_reflexive(s[i].email);
            }
            lemma_email_le_transitive(s[i].email, s[p - 1].email, x.email);
        } else if i == p {
            assert(t[j] == s[j - 1]);
            lemma_email_le_total(s[j - 1].email, x.email);
        } else {
            let si = if i < p { i } else { i - 1 };
            let sj = if j < p { j } else { j - 1 };
            assert(t[i] == s[si] && t[j] == s[sj]);
            assert(email_le(s[si].email, s[sj].email));
        }
    }
}

/// A list put in order is in order.
pub proof fn lemma_sorted_is_ordered(s: Seq<Identity>)
    ensures
        ordered(sorted_by_email(s)),
    decreases s.len(),
{
    if s.len() > 0 {
        lemma_sorted_is_ordered(s.drop_last());
        lemma_insert_keeps_order(sorted_by_email(s.drop_last()), s.last());
    }
}

/// Putting a list in order neither adds nor drops an entry: each identity
/// occurs as often afterwards as before.
pub proof fn lemma_sorted_is_permutation(s: Seq<Identity>)
    ensures
        sorted_by_email(s).to_multiset() == s.to_multiset(),
        sorted_by_email(s).len() == s.len(),
    decreases s.len(),
{
    if s.len() > 0 {
        let rest = sorted_by_email(s.drop_last());
        lemma_sorted_is_permutation(s.drop_last());
        lemma_place_bounds(rest, s.last());
        vstd::seq_lib::to_multiset_insert(rest, place(rest, s.last()), s.last());
        vstd::seq_lib::to_multiset_build(s.drop_last(), s.last());
        assert(s.drop_last().push(s.last()) == s);
    }
}

proof fn lemma_insert_keeps_groups(s: Seq<Identity>, x: Identity, email: Seq<char>)
    ensures
        with_email(s.insert(place(s, x), x), email) == with_email(s.push(x), email),
{
    let p = place(s, x);
    let same = |id: Identity| id.email == email;
    let front = s.take(p);
    let back = s.skip(p);
    lemma_place_bounds(s, x);
    assert(s.insert(p, x) == front.push(x) + back);
    assert(s.push(x) == (front + back).push(x));
    Seq::filter_distributes_over_add(front.push(x), back, same);
    Seq::filter_distributes_over_add(front, back, same);
    front.lemma_filter_push(x, same);
    (front + back).lemma_filter_push(x, same);
    if x.email == email {
        assert forall|i: int| 0 <= i < back.len() implies !same(#[trigger] back[i]) by {
            assert(back[i] == s[p + i]);
            lemma_email_le_reflexive(x.email);
        }
        assert(back.all(|id: Identity| !same(id)));
        back.lemma_all_neg_filter_empty(same);
        assert(back.filter(same) == Seq::<Identity>::empty());
        assert(front.filter(same).push(x) + Seq::<Identity>::empty() == (front.filter(same)
            + Seq::<Identity>::empty()).push(x));
    }
}

/// Putting a list in order is stable: the entries with one email address
/// stand in the order in which they stood before.
pub proof fn lemma_sorted_is_stable(s: Seq<Identity>, email: Seq<char>)
    ensures
        with_email(sorted_by_email(s), email) == with_email(s, email),
    decreases s.len(),
{
    if s.len() > 0 {
        let rest = sorted_by_email(s.drop_last());
        let same = |id: Identity| id.email == email;
        lemma_sorted_is_stable(s.drop_last(), email);
        lemma_insert_keeps_groups(rest, s.last(), email);
        rest.lemma_filter_push(s.last(), same);
        s.drop_last().lemma_filter_push(s.last(), same);
        assert(s.drop_last().push(s.last()) == s);
    }
}

/// How the last entry of a list shows among the entries with one email
/// address: it ends those with its own address and is none of the others.
proof fn lemma_group_of_last(s: Seq<Identity>, email: Seq<char>)
    requires
        s.len() > 0,
    ensures
        s.last().email == email ==> with_email(s, email) == with_email(s.drop_last(), email).push(
            s.last(),
        ),
        s.last().email != email ==> with_email(s, email) == with_email(s.drop_last(), email),
{
    let same = |id: Identity| id.email == email;
    s.drop_last().lemma_filter_push(s.last(), same);
    assert(s.drop_last().push(s.last()) == s);
}

/// The email address of the last entry of an ordered list, given that the
/// list has an entry with the address `email`, is not before `email`.
proof fn lemma_last_is_not_before(s: Seq<Identity>, email: Seq<char>)
    requires
        ordered(s),
        with_email(s, email).len() > 0,
    ensures
        s.len() > 0,
        email_le(email, s.last().email),
{
    let same = |id: Identity| id.email == email;
    let found = with_email(s, email)[0];
    s.lemma_filter_pred(same, 0);
    assert(with_email(s, email).contains(found));
    s.lemma_filter_contains_rev(same, found);
    let i = choose|i: int| 0 <= i < s.len() && s[i] == found;
    if i < s.len() - 1 {
        assert(email_le(s[i].email, s[s.len() - 1].email));
    } else {
        lemma_email_le_reflexive(email);
    }
}

proof fn lemma_ordered_prefix(s: Seq<Identity>)
    requires
        ordered(s),
        s.len() > 0,
    ensures
        ordered(s.drop_last()),
{
    let rest = s.drop_last();
    assert forall|i: int, j: int| 0 <= i < j < rest.len() implies email_le(
        #[trigger] rest[i].email,
        #[trigger] rest[j].email,
    ) by {
        assert(rest[i] == s[i] && rest[j] == s[j]);
    }
}

/// Two ordered lists that hold, for every email address, the same entries
/// in the same order are the same list.
pub proof fn lemma_ordered_groups_determine(r: Seq<Identity>, t: Seq<Identity>)
    requires
        ordered(r),
        ordered(t),
        forall|email: Seq<char>| with_email(r, email) == with_email(t, email),
    ensures
        r == t,
    decreases r.len(),
{
    if r.len() == 0 {
        if t.len() > 0 {
            lemma_group_of_last(t, t.last().email);
            assert(with_email(r, t.last().email).len() == 0) by {
                r.lemma_filter_len(|id: Identity| id.email == t.last().email);
            }
        }
        assert(r =~= t);
    } else {
        let x = r.last();
        lemma_group_of_last(r, x.email);
        assert(with_email(t, x.email).len() > 0);
        lemma_last_is_not_before(t, x.email);
        let y = t.last();
        lemma_group_of_last(t, y.email);
        assert(with_email(r, y.email).len() > 0);
        lemma_last_is_not_before(r, y.email);
        lemma_email_le_antisymmetric(x.email, y.email);
        let rg = with_email(r.drop_last(), x.email);
        let tg = with_email(t.drop_last(), x.email);
        assert(rg.push(x) == tg.push(y));
        assert(rg.push(x).last() == x && tg.push(y).last() == y);
        assert(rg =~= rg.push(x).drop_last());
        assert(tg =~= tg.push(y).drop_last());
        assert forall|email: Seq<char>|
            with_email(r.drop_last(), email) == with_email(t.drop_last(), email) by {
            lemma_group_of_last(r, email);
            lemma_group_of_last(t, email);
        }
        lemma_ordered_prefix(r);
        lemma_ordered_prefix(t);
        lemma_ordered_groups_determine(r.drop_last(), t.drop_last());
        assert(r =~= r.drop_last().push(x));
        assert(t =~= t.drop_last().push(y));
    }
}

/// Putting a list in order gives the one arrangement of it that is in
/// order of email address and keeps, for every address, the entries with
/// that address in the order in which they stood.
pub proof fn lemma_sorted_is_the_only_one(s: Seq<Identity>, r: Seq<Identity>)
    requires
        ordered(r),
        forall|email: Seq<char>| with_email(r, email) == with_email(s, email),
    ensures
        r == sorted_by_email(s),
{
    lemma_sorted_is_ordered(s);
    assert forall|email: Seq<char>| with_email(r, email) == with_email(
        sorted_by_email(s),
        email,
    ) by {
        lemma_sorted_is_stable(s, email);
    }
    lemma_ordered_groups_determine(r, sorted_by_email(s));
}

/// A list that is in order already is left as it is.
pub proof fn lemma_sorted_fixes_ordered(s: Seq<Identity>)
    requires
        ordered(s),
    ensures
        sorted_by_email(s) == s,
    decreases s.len(),
{
    if s.len() > 0 {
        let rest = s.drop_last();
        assert forall|i: int, j: int| 0 <= i < j < rest.len() implies email_le(
            #[trigger] rest[i].email,
            #[trigger] rest[j].email,
        ) by {
            assert(rest[i] == s[i] && rest[j] == s[j]);
        }
        lemma_sorted_fixes_ordered(rest);
        if rest.len() > 0 {
            assert(rest.last() == s[s.len() - 2]);
            assert(email_le(s[s.len() - 2].email, s[s.len() - 1].email));
        }
        assert(place(rest, s.last()) == rest.len());
        assert(rest.insert(rest.len() as int, s.last()) == s);
    }
}

/// After adding an identity it is an entry of the list, and the list holds
/// what it held before and nothing else.
pub proof fn lemma_added_holds(s: Seq<Identity>, x: Identity)
    ensures
        added(s, x).contains(x),
        forall|y: Identity| added(s, x).contains(y) <==> (s.contains(y) || y == x),
        s.contains(x) ==> added(s, x).len() == s.len(),
        !s.contains(x) ==> added(s, x).len() == s.len() + 1,
{
    broadcast use vstd::seq_lib::to_multiset_contains;

    if !s.contains(x) {
        let t = s.push(x);
        lemma_sorted_is_permutation(t);
        vstd::seq_lib::to_multiset_build(s, x);
        assert forall|y: Identity| added(s, x).contains(y) <==> (s.contains(y) || y == x) by {
            assert(added(s, x).to_multiset().count(y) == s.to_multiset().insert(x).count(y));
        }
    }
}

/// Adding an identity twice gives the list that adding it once gives.
pub proof fn lemma_add_is_idempotent(s: Seq<Identity>, x: Identity)
    ensures
        added(added(s, x), x) == added(s, x),
{
    lemma_added_holds(s, x);
}

/// Adding to a list in which no identity occurs twice gives such a list.
pub proof fn lemma_add_keeps_distinct(s: Seq<Identity>, x: Identity)
    requires
        s.no_duplicates(),
    ensures
        added(s, x).no_duplicates(),
{
    if !s.contains(x) {
        let t = s.push(x);
        assert(t.no_duplicates()) by {
            assert forall|i: int, j: int| 0 <= i < t.len() && 0 <= j < t.len() && i != j implies t[i]
                != t[j] by {
                if i < s.len() {
                    assert(s.contains(t[i]));
                }
                if j < s.len() {
                    assert(s.contains(t[j]));
                }
            }
        }
        t.lemma_multiset_has_no_duplicates();
        lemma_sorted_is_permutation(t);
        sorted_by_email(t).lemma_multiset_has_no_duplicates_conv();
    }
}

/// Adding to a list that is in order gives a list that is in order.
pub proof fn lemma_add_keeps_order(s: Seq<Identity>, x: Identity)
    requires
        ordered(s),
    ensures
        ordered(added(s, x)),
{
    lemma_sorted_is_ordered(s.push(x));
}

/// Taking the entry at `i` out of a list leaves one entry less; the entries
/// before `i` stay where they are and those behind it move up by one, so the
/// others keep their order. Where no identity occurred twice, the one taken
/// out no longer occurs and still none occurs twice.
pub proof fn lemma_remove_keeps_others(s: Seq<Identity>, i: int)
    requires
        0 <= i < s.len(),
    ensures
        s.remove(i).len() == s.len() - 1,
        forall|j: int| 0 <= j < i ==> s.remove(i)[j] == s[j],
        forall|j: int| i <= j < s.len() - 1 ==> s.remove(i)[j] == s[j + 1],
        s.remove(i).to_multiset() == s.to_multiset().remove(s[i]),
        ordered(s) ==> ordered(s.remove(i)),
        s.no_duplicates() ==> s.remove(i).no_duplicates() && !s.remove(i).contains(s[i]),
{
    let r = s.remove(i);
    vstd::seq_lib::to_multiset_remove(s, i);
    if ordered(s) {
        assert forall|a: int, b: int| 0 <= a < b < r.len() implies email_le(
            #[trigger] r[a].email,
            #[trigger] r[b].email,
        ) by {
            let sa = if a < i { a } else { a + 1 };
            let sb = if b < i { b } else { b + 1 };
            assert(r[a] == s[sa] && r[b] == s[sb]);
            assert(email_le(s[sa].email, s[sb].email));
        }
    }
    if s.no_duplicates() {
        assert forall|a: int, b: int| 0 <= a < r.len() && 0 <= b < r.len() && a != b implies r[a]
            != r[b] by {
            let sa = if a < i { a } else { a + 1 };
            let sb = if b < i { b } else { b + 1 };
            assert(r[a] == s[sa] && r[b] == s[sb]);
        }
        if r.contains(s[i]) {
            let a = choose|a: int| 0 <= a < r.len() && r[a] == s[i];
            let sa = if a < i { a } else { a + 1 };
            assert(r[a] == s[sa]);
        }
    }
}

impl GitIds {
    /// The list without entries.
    pub fn new() -> (list: GitIds)
        ensures
            list@ == Seq::<Identity>::empty(),
    {
        GitIds { ids: Vec::new() }
    }

    /// The number of entries.
    pub fn len(&self) -> (n: usize)
        ensures
            n == self@.len(),
    {
        self.ids.len()
    }

    /// Whether `id` is an entry of the list, both fields compared.
    pub fn contains(&self, id: &GitId) -> (found: bool)
        ensures
            found == self@.contains(id@),
    {
        let mut k: usize = 0;
        while k < self.ids.len()
            invariant
                k <= self.ids.len(),
                forall|i: int| 0 <= i < k ==> self@[i] != id@,
            decreases self.ids.len() - k,
        {
            if self.ids[k] == *id {
                assert(self@[k as int] == id@);
                return true;
            }
            k += 1;
        }
        false
    }

    /// Puts the list in order of email address. Entries with the same
    /// address stay in the order in which they stood.
    pub fn sort_by_email(&mut self)
        ensures
            final(self)@ == sorted_by_email(old(self)@),
            ordered(final(self)@),
            final(self)@.to_multiset() == old(self)@.to_multiset(),
    {
        let mut out: Vec<GitId> = Vec::new();
        let mut k: usize = 0;
        while k < self.ids.len()
            invariant
                k <= self.ids.len(),
                models(out@) == sorted_by_email(self@.take(k as int)),
            decreases self.ids.len() - k,
        {
            let id = self.ids[k].clone();
            let mut p: usize = out.len();
            proof {
                assert(models(out@).take(p as int) == models(out@));
            }
            while p > 0 && !email_not_after(out[p - 1].email.as_str(), id.email.as_str())
                invariant
                    p <= out.len(),
                    place(models(out@), id@) == place(models(out@).take(p as int), id@),
                decreases p,
            {
                proof {
                    let s = models(out@).take(p as int);
                    assert(s.last() == out@[p - 1]@);
                    assert(s.drop_last() == models(out@).take(p - 1));
                }
                p -= 1;
            }
            proof {
                let before = self@.take(k as int);
                let upto = self@.take(k + 1);
                assert(upto.drop_last() == before);
                assert(upto.last() == id@);
                let s = models(out@).take(p as int);
                if p > 0 {
                    assert(s.last() == out@[p - 1]@);
                }
                assert(place(models(out@), id@) == p);
                assert(models(out@.insert(p as int, id)) == models(out@).insert(p as int, id@));
            }
            out.insert(p, id);
            k += 1;
        }
        proof {
            assert(self@.take(k as int) == self@);
            lemma_sorted_is_ordered(self@);
            lemma_sorted_is_permutation(self@);
        }
        self.ids = out;
    }

    /// Adds `id` to the list and puts the list in order of email address.
    /// Where `id` is an entry already, the list stays as it is.
    pub fn add(&mut self, id: GitId)
        ensures
            final(self)@ == added(old(self)@, id@),
            final(self)@.contains(id@),
            old(self)@.contains(id@) ==> final(self)@ == old(self)@,
            !old(self)@.contains(id@) ==> ordered(final(self)@),
            !old(self)@.contains(id@) ==> final(self)@.to_multiset() == old(self)@.to_multiset().insert(id@),
    {
        proof {
            lemma_added_holds(self@, id@);
            vstd::seq_lib::to_multiset_build(self@, id@);
        }
        if !self.contains(&id) {
            proof {
                assert(models(self.ids@.push(id)) == self@.push(id@));
            }
            self.ids.push(id);
            self.sort_by_email();
        }
    }

    /// Takes the entry at `index` out of the list. The entries behind it
    /// move up by one; the others stay.
    pub fn remove(&mut self, index: usize) -> (done: Result<(), GitIdError>)
        ensures
            index < old(self)@.len() ==> done is Ok && final(self)@ == old(self)@.remove(index as int),
            index >= old(self)@.len() ==> done is Err && done->Err_0 == GitIdError::IndexError
                && final(self)@ == old(self)@,
    {
        if index >= self.ids.len() {
            return Err(GitIdError::IndexError);
        }
        proof {
            assert(models(self.ids@.remove(index as int)) == self@.remove(index as int));
        }
        self.ids.remove(index);
        Ok(())
    }

    /// The entry at `index`.
    pub fn get(&self, index: usize) -> (entry: Result<&GitId, GitIdError>)
        ensures
            index < self@.len() ==> entry is Ok && entry->Ok_0@ == self@[index as int],
            index >= self@.len() ==> entry is Err && entry->Err_0 == GitIdError::IndexError,
    {
        if index >= self.ids.len() {
            return Err(GitIdError::IndexError);
        }
        Ok(&self.ids[index])
    }
}

} // verus!
