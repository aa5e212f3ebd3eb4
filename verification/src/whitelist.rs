//! Whitelists of accounts, with `*.suffix` patterns, for client-echo senders
//! and reliable liquidators.

use vstd::prelude::*;

verus! {

/// Whether the whitelist item `item` admits the account `id`: an item
/// `*.suffix` admits every account ending in `.suffix`; any other item admits
/// exactly itself.
pub open spec fn item_admits(item: Seq<char>, id: Seq<char>) -> bool {
    if item.len() >= 2 && item[0] == '*' && item[1] == '.' {
        let dot_suffix = item.subrange(1, item.len() as int);
        id.len() >= dot_suffix.len() && id.subrange(id.len() - dot_suffix.len(), id.len() as int) == dot_suffix
    } else {
        id == item
    }
}

/// Whether the chars of `a` from `a_from` and of `b` from `b_from` agree for `n` chars.
fn same_chars(a: &str, a_from: usize, b: &str, b_from: usize, n: usize) -> (r: bool)
    requires
        a_from + n <= a@.len(),
        b_from + n <= b@.len(),
        a_from + n <= usize::MAX,
        b_from + n <= usize::MAX,
    ensures
        r == (a@.subrange(a_from as int, a_from + n) == b@.subrange(b_from as int, b_from + n)),
{
    let mut k: usize = 0;
    while k < n
        invariant
            k <= n,
            a_from + n <= a@.len(),
            b_from + n <= b@.len(),
            a_from + n <= usize::MAX,
            b_from + n <= usize::MAX,
            forall|j: int| 0 <= j < k ==> #[trigger] a@.subrange(a_from as int, a_from + n)[j] == b@.subrange(b_from as int, b_from + n)[j],
        decreases n - k,
    {
        if a.get_char(a_from + k) != b.get_char(b_from + k) {
            assert(a@.subrange(a_from as int, a_from + n)[k as int] != b@.subrange(b_from as int, b_from + n)[k as int]);
            return false;
        }
        k = k + 1;
    }
    assert(a@.subrange(a_from as int, a_from + n) =~= b@.subrange(b_from as int, b_from + n));
    true
}

/// Whether the whitelist item `item` admits the account `id`.
pub fn item_admits_id(item: &str, id: &str) -> (r: bool)
    ensures
        r == item_admits(item@, id@),
{
    let il = item.unicode_len();
    let dl = id.unicode_len();
    if il >= 2 && item.get_char(0) == '*' && item.get_char(1) == '.' {
        let sl = il - 1;
        if dl < sl {
            return false;
        }
        let off = dl - sl;
        let r = same_chars(id, off, item, 1, sl);
        assert(id@.subrange(off as int, off + sl) =~= id@.subrange(id@.len() - (sl as int), id@.len() as int));
        assert(item@.subrange(1, 1 + sl) =~= item@.subrange(1, item@.len() as int));
        r
    } else {
        if dl != il {
            return false;
        }
        let r = same_chars(id, 0, item, 0, il);
        assert(id@.subrange(0, il as int) =~= id@);
        assert(item@.subrange(0, il as int) =~= item@);
        r
    }
}

/// What adding `items` in turn to a whitelist holding `before` gives: it
/// succeeds where no item is held already, or added before it, and the
/// items then follow in order; else it is refused at the first such item,
/// with the whitelist unchanged.
pub open spec fn appended(before: Seq<Seq<char>>, items: Seq<String>, r: Result<(), WhitelistError>, after: Seq<Seq<char>>) -> bool {
    &&& r is Ok <==> (forall|i: int| 0 <= i < items.len() ==>
        !(before + items.take(i).map_values(|s: String| s@)).contains(#[trigger] items[i]@))
    &&& r is Ok ==> after == before + items.map_values(|s: String| s@)
    &&& r matches Err(e) ==> exists|i: int| 0 <= i < items.len()
        && (before + items.take(i).map_values(|s: String| s@)).contains(#[trigger] items[i]@)
        && e == WhitelistError::Exists(items[i])
        && forall|j: int| 0 <= j < i ==> !(before + items.take(j).map_values(|s: String| s@)).contains(#[trigger] items[j]@)
    &&& r is Err ==> after == before
}

/// What taking `items` out in turn of a whitelist holding `before` gives:
/// it succeeds where each item is held (and not taken out before it), and
/// then exactly the items held and not taken out stay; else it is refused
/// at an item not held then, with the whitelist unchanged.
pub open spec fn removed(before: Seq<Seq<char>>, items: Seq<String>, r: Result<(), WhitelistError>, after: Seq<Seq<char>>) -> bool {
    &&& r is Ok ==> forall|s: Seq<char>| #[trigger] after.contains(s) <==>
        (before.contains(s) && !items.map_values(|x: String| x@).contains(s))
    &&& r is Ok ==> forall|i: int| 0 <= i < items.len() ==> before.contains(#[trigger] items[i]@)
    &&& r matches Err(e) ==> exists|i: int| 0 <= i < items.len() && e == WhitelistError::NotExist(#[trigger] items[i])
        && (!before.contains(items[i]@) || items.take(i).map_values(|x: String| x@).contains(items[i]@))
    &&& r is Err ==> after == before
}

/// A set of whitelist items, each held once.
pub struct Whitelist {
    items: Vec<String>,
}

/// Why a change to a whitelist was refused.
#[derive(Clone, Debug, PartialEq, Eq)]
pub enum WhitelistError {
    /// The item is in the whitelist already.
    Exists(String),
    /// The item is not in the whitelist.
    NotExist(String),
}

impl Whitelist {
    /// The items, in the order they were added.
    pub closed spec fn view(&self) -> Seq<Seq<char>> {
        self.items@.map_values(|s: String| s@)
    }

    /// No item is held twice.
    pub open spec fn wf(&self) -> bool {
        self.view().no_duplicates()
    }

    /// An empty whitelist.
    pub fn new() -> (r: Whitelist)
        ensures
            r.wf(),
            r.view() == Seq::<Seq<char>>::empty(),
    {
        let r = Whitelist { items: Vec::new() };
        assert(r.view() =~= Seq::<Seq<char>>::empty());
        r
    }

    /// Where `item` is held, if it is.
    fn position(&self, item: &String) -> (r: Option<usize>)
        ensures
            r is None <==> !self.view().contains(item@),
            r matches Some(k) ==> k < self.view().len() && self.view()[k as int] == item@,
    {
        let mut i: usize = 0;
        while i < self.items.len()
            invariant
                i <= self.items.len(),
                self.view().len() == self.items.len(),
                forall|j: int| 0 <= j < i ==> self.view()[j] != item@,
            decreases self.items.len() - i,
        {
            assert(self.view()[i as int] == self.items[i as int]@);
            if self.items[i] == *item {
                return Some(i);
            }
            i = i + 1;
        }
        None
    }

    /// Whether `item` is held.
    pub fn contains(&self, item: &String) -> (r: bool)
        ensures
            r == self.view().contains(item@),
    {
        self.position(item).is_some()
    }

    /// A copy of the whitelist.
    pub fn copy(&self) -> (r: Whitelist)
        ensures
            r.view() == self.view(),
    {
        let items = self.items.clone();
        assert forall|i: int| 0 <= i < items@.len() implies items@[i] == self.items@[i] by {
            assert(cloned::<String>(self.items[i], items[i]));
        }
        assert(items@ =~= self.items@);
        Whitelist { items }
    }

    /// Adds each of `items` in turn; refused, with the whitelist left as it
    /// was, at the first item that is already held.
    pub fn append(&mut self, items: Vec<String>) -> (r: Result<(), WhitelistError>)
        requires
            old(self).wf(),
        ensures
            final(self).wf(),
            appended(old(self).view(), items@, r, final(self).view()),
    {
        let mut next = self.copy();
        let mut i: usize = 0;
        while i < items.len()
            invariant
                i <= items@.len(),
                next.wf(),
                next.view() == old(self).view() + items@.take(i as int).map_values(|s: String| s@),
                *self == *old(self),
                old(self).wf(),
                forall|j: int| 0 <= j < i ==>
                    !(old(self).view() + items@.take(j).map_values(|s: String| s@)).contains(#[trigger] items@[j]@),
            decreases items@.len() - i,
        {
            let item = &items[i];
            if next.contains(item) {
                return Err(WhitelistError::Exists(item.clone()));
            }
            let ghost before = next.view();
            next.items.push(item.clone());
            assert(next.view() =~= before.push(item@));
            assert(items@.take(i as int + 1).map_values(|s: String| s@) =~= items@.take(i as int).map_values(|s: String| s@).push(item@));
            assert(next.view().no_duplicates()) by {
                assert forall|a: int, b: int| 0 <= a < next.view().len() && 0 <= b < next.view().len() && a != b
                    implies next.view()[a] != next.view()[b] by {
                    if a == before.len() {
                        assert(next.view()[b] == before[b]);
                        assert(before.contains(before[b]));
                    } else if b == before.len() {
                        assert(next.view()[a] == before[a]);
                    }
                }
            }
            i = i + 1;
        }
        assert(items@.take(items@.len() as int) =~= items@);
        *self = next;
        Ok(())
    }

    /// Takes each of `items` out in turn; refused, with the whitelist left as
    /// it was, at the first item that is not held (then).
    pub fn remove(&mut self, items: Vec<String>) -> (r: Result<(), WhitelistError>)
        requires
            old(self).wf(),
        ensures
            final(self).wf(),
            removed(old(self).view(), items@, r, final(self).view()),
    {
        let mut next = self.copy();
        let mut i: usize = 0;
        while i < items.len()
            invariant
                i <= items@.len(),
                next.wf(),
                *self == *old(self),
                old(self).wf(),
                forall|s: Seq<char>| #[trigger] next.view().contains(s) <==>
                    (old(self).view().contains(s) && !items@.take(i as int).map_values(|x: String| x@).contains(s)),
                forall|j: int| 0 <= j < i ==> old(self).view().contains(#[trigger] items@[j]@),
            decreases items@.len() - i,
        {
            let item = &items[i];
            let ghost before = next.view();
            let ghost taken = items@.take(i as int).map_values(|x: String| x@);
            assert(items@.take(i as int + 1).map_values(|x: String| x@) =~= taken.push(item@));
            let k = match next.position(item) {
                Some(k) => k,
                None => {
                    return Err(WhitelistError::NotExist(item.clone()));
                },
            };
            assert(next.view()[k as int] == item@);
            next.items.remove(k);
            assert(next.view() =~= before.remove(k as int));
            assert(next.view().no_duplicates()) by {
                assert forall|a: int, b: int| 0 <= a < next.view().len() && 0 <= b < next.view().len() && a != b
                    implies next.view()[a] != next.view()[b] by {
                    let a2 = if a < k { a } else { a + 1 };
                    let b2 = if b < k { b } else { b + 1 };
                    assert(next.view()[a] == before[a2]);
                    assert(next.view()[b] == before[b2]);
                }
            }
            assert forall|s: Seq<char>| #[trigger] next.view().contains(s) <==>
                (old(self).view().contains(s) && !taken.push(item@).contains(s)) by {
                if next.view().contains(s) {
                    let j = choose|j: int| 0 <= j < next.view().len() && next.view()[j] == s;
                    let j2 = if j < k { j } else { j + 1 };
                    assert(before[j2] == s);
                    assert(before.contains(s));
                    if s == item@ {
                        assert(before[k as int] == s);
                        assert(j2 != k);
                    }
                    assert(s != item@);
                    assert(!taken.contains(s));
                    assert(!taken.push(item@).contains(s)) by {
                        if taken.push(item@).contains(s) {
                            let q = choose|q: int| 0 <= q < taken.push(item@).len() && taken.push(item@)[q] == s;
                            if q < taken.len() { assert(taken[q] == s); }
                        }
                    }
                }
                if old(self).view().contains(s) && !taken.push(item@).contains(s) {
                    assert(!taken.contains(s)) by {
                        if taken.contains(s) {
                            let q = choose|q: int| 0 <= q < taken.len() && taken[q] == s;
                            assert(taken.push(item@)[q] == s);
                        }
                    }
                    assert(before.contains(s));
                    let j = choose|j: int| 0 <= j < before.len() && before[j] == s;
                    assert(s != item@) by { assert(taken.push(item@)[taken.len() as int] == item@); }
                    assert(j != k);
                    let j2 = if j < k { j } else { j - 1 };
                    assert(next.view()[j2] == s);
                }
            }
            i = i + 1;
        }
        assert(items@.take(items@.len() as int) =~= items@);
        *self = next;
        Ok(())
    }

    /// The items, in the order they were added.
    pub fn to_vec(&self) -> (r: Vec<String>)
        ensures
            r@.map_values(|s: String| s@) == self.view(),
    {
        self.items.clone()
    }

    /// Whether some item admits `id`.
    pub fn admits(&self, id: &str) -> (r: bool)
        ensures
            r == exists|i: int| 0 <= i < self.view().len() && item_admits(#[trigger] self.view()[i], id@),
    {
        let mut i: usize = 0;
        while i < self.items.len()
            invariant
                i <= self.items.len(),
                self.view().len() == self.items.len(),
                forall|j: int| 0 <= j < i ==> !item_admits(#[trigger] self.view()[j], id@),
            decreases self.items.len() - i,
        {
            assert(self.view()[i as int] == self.items[i as int]@);
            if item_admits_id(self.items[i].as_str(), id) {
                return true;
            }
            i = i + 1;
        }
        false
    }
}

/// Adds reliable liquidators (or `*.suffix` patterns) to the whitelist.
pub fn append_reliable_liquidator_whitelist(whitelist: &mut Whitelist, liquidator_list: Vec<String>) -> (r: Result<(), WhitelistError>)
    requires
        old(whitelist).wf(),
    ensures
        final(whitelist).wf(),
        appended(old(whitelist).view(), liquidator_list@, r, final(whitelist).view()),
{
    whitelist.append(liquidator_list)
}

/// Takes reliable liquidators (or patterns) out of the whitelist.
pub fn remove_reliable_liquidator_whitelist(whitelist: &mut Whitelist, liquidator_list: Vec<String>) -> (r: Result<(), WhitelistError>)
    requires
        old(whitelist).wf(),
    ensures
        final(whitelist).wf(),
        removed(old(whitelist).view(), liquidator_list@, r, final(whitelist).view()),
{
    whitelist.remove(liquidator_list)
}

/// The items of the reliable-liquidator whitelist.
pub fn get_reliable_liquidator_whitelist(whitelist: &Whitelist) -> (r: Vec<String>)
    ensures
        r@.map_values(|s: String| s@) == whitelist.view(),
{
    whitelist.to_vec()
}

/// Whether the whitelist admits `liquidator_id` as a reliable liquidator.
pub fn in_reliable_liquidator_whitelist(whitelist: &Whitelist, liquidator_id: &str) -> (r: bool)
    ensures
        r == exists|i: int| 0 <= i < whitelist.view().len() && item_admits(#[trigger] whitelist.view()[i], liquidator_id@),
{
    whitelist.admits(liquidator_id)
}

/// Adds client-echo senders (or `*.suffix` patterns) to the whitelist.
pub fn append_client_echo_sender_whitelist(whitelist: &mut Whitelist, sender_list: Vec<String>) -> (r: Result<(), WhitelistError>)
    requires
        old(whitelist).wf(),
    ensures
        final(whitelist).wf(),
        appended(old(whitelist).view(), sender_list@, r, final(whitelist).view()),
{
    whitelist.append(sender_list)
}

/// Takes client-echo senders (or patterns) out of the whitelist.
pub fn remove_client_echo_sender_whitelist(whitelist: &mut Whitelist, sender_list: Vec<String>) -> (r: Result<(), WhitelistError>)
    requires
        old(whitelist).wf(),
    ensures
        final(whitelist).wf(),
        removed(old(whitelist).view(), sender_list@, r, final(whitelist).view()),
{
    whitelist.remove(sender_list)
}

/// The items of the client-echo sender whitelist.
pub fn get_client_echo_sender_whitelist(whitelist: &Whitelist) -> (r: Vec<String>)
    ensures
        r@.map_values(|s: String| s@) == whitelist.view(),
{
    whitelist.to_vec()
}

/// Whether the whitelist admits `sender_id` as a client-echo sender.
pub fn in_client_echo_sender_whitelist(whitelist: &Whitelist, sender_id: &str) -> (r: bool)
    ensures
        r == exists|i: int| 0 <= i < whitelist.view().len() && item_admits(#[trigger] whitelist.view()[i], sender_id@),
{
    whitelist.admits(sender_id)
}

/// Every whitelist item admits its own text.
pub proof fn lemma_item_admits_itself(item: Seq<char>)
    ensures
        item_admits(item, item),
{
    if item.len() >= 2 && item[0] == '*' && item[1] == '.' {
        let dot_suffix = item.subrange(1, item.len() as int);
        assert(item.subrange(item.len() - dot_suffix.len(), item.len() as int) =~= dot_suffix);
    }
}

/// The pattern `*.suffix` admits every account `prefix.suffix`, and never the
/// bare `suffix`.
pub proof fn lemma_wildcard_admits(suffix: Seq<char>, prefix: Seq<char>)
    ensures
        item_admits(seq!['*', '.'] + suffix, prefix + seq!['.'] + suffix),
        !item_admits(seq!['*', '.'] + suffix, suffix),
{
    let item = seq!['*', '.'] + suffix;
    let id = prefix + seq!['.'] + suffix;
    assert(item[0] == '*' && item[1] == '.');
    let dot_suffix = item.subrange(1, item.len() as int);
    assert(dot_suffix =~= seq!['.'] + suffix);
    assert(id.subrange(id.len() - dot_suffix.len(), id.len() as int) =~= dot_suffix);
}

/// Removing the items just appended gives back the whitelist as it was (as a
/// set of items): `appended` holds `before` followed by `items`, none of which
/// was held before, and `after` holds what `appended` holds but `items`.
pub proof fn lemma_remove_undoes_append(before: Seq<Seq<char>>, items: Seq<Seq<char>>, after: Seq<Seq<char>>)
    requires
        forall|i: int| 0 <= i < items.len() ==> !(before + items.take(i)).contains(#[trigger] items[i]),
        forall|s: Seq<char>| #[trigger] after.contains(s) <==> ((before + items).contains(s) && !items.contains(s)),
    ensures
        forall|s: Seq<char>| #[trigger] after.contains(s) <==> before.contains(s),
{
    assert forall|s: Seq<char>| #[trigger] after.contains(s) <==> before.contains(s) by {
        if before.contains(s) {
            let j = choose|j: int| 0 <= j < before.len() && before[j] == s;
            assert((before + items)[j] == s);
            if items.contains(s) {
                let i = choose|i: int| 0 <= i < items.len() && items[i] == s;
                assert((before + items.take(i))[j] == s);
                assert((before + items.take(i)).contains(items[i]));
            }
        }
        if (before + items).contains(s) && !items.contains(s) {
            let k = choose|k: int| 0 <= k < (before + items).len() && (before + items)[k] == s;
            if k >= before.len() {
                assert(items[k - before.len()] == s);
            }
            assert(before[k] == s);
        }
    }
}

} // verus!
