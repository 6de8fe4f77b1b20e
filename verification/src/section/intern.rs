//! Pools of strings: each long string is kept once, so that equal strings
//! from many tables share one copy.
use crate::text::{smol_from_chars, smol_text, str_eq};
use smol_str::SmolStr;
use vstd::prelude::*;
use vstd::utf8::encode_utf8;

verus! {

/// The longest string, in bytes of UTF-8, that is kept inline and so is
/// never pooled.
pub const INLINE_CAP: usize = 23;

/// Whether `text` is short enough to be kept inline.
pub open spec fn fits_inline(text: Seq<char>) -> bool {
    encode_utf8(text).len() <= INLINE_CAP
}

/// `pool` with `text` added, unless `text` is kept inline.
pub open spec fn pooled(pool: Set<Seq<char>>, text: Seq<char>) -> Set<Seq<char>> {
    if fits_inline(text) {
        pool
    } else {
        pool.insert(text)
    }
}

/// A string that was pooled is in the pool if it is long, and pooling it
/// once more changes nothing.
pub proof fn lemma_pooled_once(pool: Set<Seq<char>>, text: Seq<char>)
    ensures
        !fits_inline(text) ==> pooled(pool, text).contains(text),
        pooled(pooled(pool, text), text) == pooled(pool, text),
{
    assert(pooled(pooled(pool, text), text) =~= pooled(pool, text));
}

/// Those of `texts` that are too long to be kept inline.
pub open spec fn long_among(texts: Seq<Seq<char>>) -> Set<Seq<char>> {
    Set::new(|t: Seq<char>| !fits_inline(t) && texts.contains(t))
}

/// Pooling one more string is pooling the long ones of a longer list.
pub proof fn lemma_long_among_push(pool: Set<Seq<char>>, texts: Seq<Seq<char>>, text: Seq<char>)
    ensures
        pooled(pool + long_among(texts), text) == pool + long_among(texts.push(text)),
{
    let longer = texts.push(text);
    assert forall|t: Seq<char>| longer.contains(t) <==> (texts.contains(t) || t == text) by {
        if texts.contains(t) {
            let i = choose|i: int| 0 <= i < texts.len() && texts[i] == t;
            assert(longer[i] == t);
        }
        if t == text {
            assert(longer[texts.len() as int] == t);
        }
        if longer.contains(t) {
            let i = choose|i: int| 0 <= i < longer.len() && longer[i] == t;
            if i < texts.len() {
                assert(texts[i] == t);
            }
        }
    }
    assert(pooled(pool + long_among(texts), text) =~= pool + long_among(longer));
}

/// Pooling the long strings of two lists one after the other is pooling
/// those of both.
pub proof fn lemma_long_among_add(pool: Set<Seq<char>>, front: Seq<Seq<char>>, back: Seq<Seq<char>>)
    ensures
        pool + long_among(front) + long_among(back) == pool + long_among(front + back),
{
    let both = front + back;
    assert forall|t: Seq<char>| both.contains(t) <==> (front.contains(t) || back.contains(t)) by {
        if front.contains(t) {
            let i = choose|i: int| 0 <= i < front.len() && front[i] == t;
            assert(both[i] == t);
        }
        if back.contains(t) {
            let i = choose|i: int| 0 <= i < back.len() && back[i] == t;
            assert(both[front.len() + i] == t);
        }
        if both.contains(t) {
            let i = choose|i: int| 0 <= i < both.len() && both[i] == t;
            if i < front.len() {
                assert(front[i] == t);
            } else {
                assert(back[i - front.len()] == t);
            }
        }
    }
    assert(pool + long_among(front) + long_among(back) =~= pool + long_among(both));
}

/// A set of strings of which each is kept once, so that equal strings from
/// many tables share one copy.
pub struct Interner {
    items: Vec<SmolStr>,
}

impl View for Interner {
    type V = Set<Seq<char>>;

    closed spec fn view(&self) -> Set<Seq<char>> {
        Set::new(|t: Seq<char>| exists|i: int| 0 <= i < self.items@.len() && smol_text(#[trigger] self.items@[i]) == t)
    }
}

impl Interner {
    #[verifier::type_invariant]
    spec fn distinct(self) -> bool {
        forall|i: int, j: int|
            0 <= i < j < self.items@.len() ==> smol_text(#[trigger] self.items@[i]) != smol_text(
                #[trigger] self.items@[j],
            )
    }

    /// The strings of the pool, in the order in which it took them up.
    pub closed spec fn order(self) -> Seq<Seq<char>> {
        self.items@.map_values(|s: SmolStr| smol_text(s))
    }

    /// The pool holds the strings of its order, and no others.
    pub proof fn lemma_order(self)
        ensures
            forall|t: Seq<char>| self@.contains(t) <==> self.order().contains(t),
    {
        assert forall|t: Seq<char>| self@.contains(t) <==> self.order().contains(t) by {
            if self@.contains(t) {
                let i = choose|i: int|
                    0 <= i < self.items@.len() && smol_text(#[trigger] self.items@[i]) == t;
                assert(self.order()[i] == t);
            }
            if self.order().contains(t) {
                let i = choose|i: int| 0 <= i < self.order().len() && self.order()[i] == t;
                assert(smol_text(self.items@[i]) == t);
            }
        }
    }

    /// A pool that holds nothing.
    pub fn new() -> (pool: Self)
        ensures
            pool@ == Set::<Seq<char>>::empty(),
            pool.order() == Seq::<Seq<char>>::empty(),
    {
        let pool = Interner { items: Vec::new() };
        assert(pool@ =~= Set::<Seq<char>>::empty());
        assert(pool.order() =~= Seq::<Seq<char>>::empty());
        pool
    }

    /// The pooled copy of `text`, if the pool holds one.
    pub fn lookup(&self, text: &str) -> (found: Option<SmolStr>)
        ensures
            found is Some <==> self@.contains(text@),
            found matches Some(s) ==> smol_text(s) == text@,
    {
        let mut i: usize = 0;
        while i < self.items.len()
            invariant
                i <= self.items@.len(),
                forall|j: int| 0 <= j < i ==> smol_text(#[trigger] self.items@[j]) != text@,
            decreases self.items@.len() - i,
        {
            if str_eq(self.items[i].as_str(), text) {
                return Some(self.items[i].clone());
            }
            i = i + 1;
        }
        None
    }

    /// A string that holds `chars`. One that is too long to be kept inline
    /// comes from the pool, which takes it up if it is new.
    pub fn intern(&mut self, chars: &[char]) -> (s: SmolStr)
        ensures
            smol_text(s) == chars@,
            final(self)@ == pooled(old(self)@, chars@),
            final(self).order() == if fits_inline(chars@) || old(self)@.contains(chars@) {
                old(self).order()
            } else {
                old(self).order().push(chars@)
            },
    {
        let made = smol_from_chars(chars);
        if made.as_str().as_bytes().len() <= INLINE_CAP {
            return made;
        }
        match self.lookup(made.as_str()) {
            Some(shared) => {
                assert(self@ =~= self@.insert(chars@));
                shared
            },
            None => {
                proof {
                    use_type_invariant(&*self);
                }
                let ghost before = self.items@;
                let mut items: Vec<SmolStr> = Vec::new();
                core::mem::swap(&mut self.items, &mut items);
                items.push(made.clone());
                self.items = items;
                proof {
                    assert forall|t: Seq<char>| final(self)@.contains(t) <==> old(self)@.insert(
                        chars@,
                    ).contains(t) by {
                        if old(self)@.contains(t) {
                            let i = choose|i: int|
                                0 <= i < before.len() && smol_text(#[trigger] before[i]) == t;
                            assert(smol_text(self.items@[i]) == t);
                        }
                        if t == chars@ {
                            assert(smol_text(self.items@[before.len() as int]) == t);
                        }
                    }
                    assert(self@ =~= old(self)@.insert(chars@));
                    assert(self.order() =~= old(self).order().push(chars@));
                }
                made
            },
        }
    }

    /// One of the strings that the pool holds: the one at `index`, in the
    /// order in which they were taken up.
    pub fn get(&self, index: usize) -> (text: &str)
        requires
            index < self.order().len(),
        ensures
            text@ == self.order()[index as int],
    {
        self.items[index].as_str()
    }

    /// How many strings the pool holds.
    pub fn len(&self) -> (n: usize)
        ensures
            n == self@.len(),
            n == self.order().len(),
            self@.finite(),
            self.order().no_duplicates(),
    {
        proof {
            use_type_invariant(self);
            Self::lemma_count(self.items@);
            assert(self@ =~= Self::texts_of(self.items@));
        }
        self.items.len()
    }

    spec fn texts_of(items: Seq<SmolStr>) -> Set<Seq<char>> {
        Set::new(|t: Seq<char>| exists|i: int| 0 <= i < items.len() && smol_text(#[trigger] items[i]) == t)
    }

    proof fn lemma_count(items: Seq<SmolStr>)
        requires
            forall|i: int, j: int|
                0 <= i < j < items.len() ==> smol_text(#[trigger] items[i]) != smol_text(
                    #[trigger] items[j],
                ),
        ensures
            Self::texts_of(items).finite(),
            Self::texts_of(items).len() == items.len(),
        decreases items.len(),
    {
        if items.len() == 0 {
            assert(Self::texts_of(items) =~= Set::<Seq<char>>::empty());
        } else {
            let front = items.drop_last();
            let last = smol_text(items.last());
            Self::lemma_count(front);
            assert forall|t: Seq<char>| Self::texts_of(items).contains(t) <==> Self::texts_of(front).insert(last).contains(t) by {
                if Self::texts_of(items).contains(t) {
                    let i = choose|i: int| 0 <= i < items.len() && smol_text(#[trigger] items[i]) == t;
                    if i < front.len() {
                        assert(smol_text(front[i]) == t);
                    }
                }
                if Self::texts_of(front).contains(t) {
                    let i = choose|i: int| 0 <= i < front.len() && smol_text(#[trigger] front[i]) == t;
                    assert(smol_text(items[i]) == t);
                }
                if t == last {
                    assert(smol_text(items[items.len() - 1]) == t);
                }
            }
            assert(Self::texts_of(items) =~= Self::texts_of(front).insert(last));
            assert(!Self::texts_of(front).contains(last)) by {
                if Self::texts_of(front).contains(last) {
                    let i = choose|i: int| 0 <= i < front.len() && smol_text(#[trigger] front[i]) == last;
                    assert(smol_text(items[i]) != smol_text(items[items.len() - 1]));
                }
            }
        }
    }
}

/// The four pools of a process: one for each kind of string that the
/// entries of a table hold.
pub struct InternPool {
    pub biomes: Interner,
    pub blocks: Interner,
    pub state_keys: Interner,
    pub state_values: Interner,
}

impl InternPool {
    /// Four empty pools.
    pub fn new() -> (pool: Self)
        ensures
            pool.biomes@ == Set::<Seq<char>>::empty(),
            pool.blocks@ == Set::<Seq<char>>::empty(),
            pool.state_keys@ == Set::<Seq<char>>::empty(),
            pool.state_values@ == Set::<Seq<char>>::empty(),
            pool.biomes.order() == Seq::<Seq<char>>::empty(),
            pool.blocks.order() == Seq::<Seq<char>>::empty(),
            pool.state_keys.order() == Seq::<Seq<char>>::empty(),
            pool.state_values.order() == Seq::<Seq<char>>::empty(),
    {
        InternPool {
            biomes: Interner::new(),
            blocks: Interner::new(),
            state_keys: Interner::new(),
            state_values: Interner::new(),
        }
    }
}

} // verus!
