//! The entries of a mapping: what the string of an entry spells, and the
//! entry that is made of it.
use crate::block::Block;
use crate::error::Fault;
use crate::section::intern::{
    lemma_long_among_push, long_among, pooled, InternPool,
};
use crate::text::{chars_of, find, first_occurrence, smol_from_chars, smol_text, str_eq};
use smol_str::SmolStr;
use vstd::prelude::*;
use vstd::std_specs::cmp::PartialEqSpecImpl;

verus! {

/// The token between the biome and the block of an entry.
pub open spec fn separator() -> Seq<char> {
    seq!['_', 'D', 'H', '-', 'B', 'S', 'W', '_']
}

/// The token between the block and its state groups.
pub open spec fn state_marker() -> Seq<char> {
    seq!['_', 'S', 'T', 'A', 'T', 'E', '_']
}

/// One `{key:value}` group of an entry.
pub type Group = (Seq<char>, Seq<char>);

/// An entry as its string spells it: the state still as the list of its
/// groups, in the order in which they stand.
pub struct Spelling {
    pub biome: Seq<char>,
    pub block: Seq<char>,
    pub groups: Seq<Group>,
}

/// What an entry is: a biome, a block and the block's state.
pub struct EntryView {
    pub biome: Seq<char>,
    pub block: Seq<char>,
    pub state: Map<Seq<char>, Seq<char>>,
}

/// Where the piece that `s` begins with ends: at the first closing brace,
/// or at the end of `s` where there is none.
pub open spec fn piece_end(s: Seq<char>) -> int {
    match first_occurrence(s, seq!['}']) {
        Some(i) => if 0 <= i < s.len() {
            i
        } else {
            s.len() as int
        },
        None => s.len() as int,
    }
}

/// The groups of a state blob. The blob is cut at each closing brace. An
/// empty piece is passed over; any other begins with an opening brace and
/// holds a colon, which parts the key from the value.
pub open spec fn parse_groups(s: Seq<char>) -> Result<Seq<Group>, Fault>
    decreases s.len(),
{
    if s.len() == 0 {
        Ok(Seq::empty())
    } else {
        let end = piece_end(s);
        let piece = s.subrange(0, end);
        let rest = if end < s.len() {
            s.subrange(end + 1, s.len() as int)
        } else {
            Seq::empty()
        };
        if piece.len() == 0 {
            parse_groups(rest)
        } else if piece[0] != '{' {
            Err(Fault::MissingOpeningBrace)
        } else {
            match first_occurrence(piece.subrange(1, piece.len() as int), seq![':']) {
                None => Err(Fault::MissingColon),
                Some(c) => match parse_groups(rest) {
                    Ok(groups) => Ok(
                        seq![(piece.subrange(1, 1 + c), piece.subrange(2 + c, piece.len() as int))]
                            + groups,
                    ),
                    Err(fault) => Err(fault),
                },
            }
        }
    }
}

/// An entry's string, taken apart: the biome ends at the first separator;
/// the block ends at the first state marker behind it, or at the end; the
/// rest is the state blob.
pub open spec fn parse_entry(s: Seq<char>) -> Result<Spelling, Fault> {
    match first_occurrence(s, separator()) {
        None => Err(Fault::MissingSeparator),
        Some(i) => {
            let tail = s.subrange(i + 8, s.len() as int);
            let cut = first_occurrence(tail, state_marker());
            let block = match cut {
                Some(j) => tail.subrange(0, j),
                None => tail,
            };
            let blob = match cut {
                Some(j) => tail.subrange(j + 7, tail.len() as int),
                None => Seq::empty(),
            };
            match parse_groups(blob) {
                Ok(groups) => Ok(Spelling { biome: s.subrange(0, i), block, groups }),
                Err(fault) => Err(fault),
            }
        },
    }
}

/// The state that a list of groups describes: where a key stands twice,
/// the later group counts.
pub open spec fn state_of(groups: Seq<Group>) -> Map<Seq<char>, Seq<char>>
    decreases groups.len(),
{
    if groups.len() == 0 {
        Map::empty()
    } else {
        state_of(groups.drop_last()).insert(groups.last().0, groups.last().1)
    }
}

impl Spelling {
    /// The entry that is spelled.
    pub open spec fn entry(self) -> EntryView {
        EntryView { biome: self.biome, block: self.block, state: state_of(self.groups) }
    }
}

/// The keys of `groups`, in order.
pub open spec fn keys_of(groups: Seq<Group>) -> Seq<Seq<char>> {
    groups.map_values(|group: Group| group.0)
}

/// The values of `groups`, in order.
pub open spec fn values_of(groups: Seq<Group>) -> Seq<Seq<char>> {
    groups.map_values(|group: Group| group.1)
}

/// Whether `biome` is one of the biomes of the Nether.
pub open spec fn is_nether_biome(biome: Seq<char>) -> bool {
    ||| biome == "minecraft:nether_wastes"@
    ||| biome == "minecraft:crimson_forest"@
    ||| biome == "minecraft:warped_forest"@
    ||| biome == "minecraft:soul_sand_valley"@
    ||| biome == "minecraft:basalt_deltas"@
}

/// A group as two ranges of indices into the characters of an entry.
struct Span {
    key_lo: usize,
    key_hi: usize,
    value_lo: usize,
    value_hi: usize,
}

impl Span {
    spec fn valid(self, len: int) -> bool {
        self.key_lo <= self.key_hi <= len && self.value_lo <= self.value_hi <= len
    }

    spec fn group(self, chars: Seq<char>) -> Group {
        (
            chars.subrange(self.key_lo as int, self.key_hi as int),
            chars.subrange(self.value_lo as int, self.value_hi as int),
        )
    }
}

spec fn groups_of(spans: Seq<Span>, chars: Seq<char>) -> Seq<Group> {
    spans.map_values(|span: Span| span.group(chars))
}

spec fn prepend(front: Seq<Group>, back: Result<Seq<Group>, Fault>) -> Result<Seq<Group>, Fault> {
    match back {
        Ok(groups) => Ok(front + groups),
        Err(fault) => Err(fault),
    }
}

/// The groups of the blob that stands in `chars` from `lo` to `hi`.
fn scan_groups(chars: &[char], lo: usize, hi: usize) -> (r: Result<Vec<Span>, Fault>)
    requires
        lo <= hi <= chars@.len(),
    ensures
        match r {
            Ok(spans) => parse_groups(chars@.subrange(lo as int, hi as int)) == Ok::<
                Seq<Group>,
                Fault,
            >(groups_of(spans@, chars@)) && forall|i: int| 0 <= i < spans@.len() ==> (#[trigger] spans@[i]).valid(chars@.len() as int),
            Err(fault) => parse_groups(chars@.subrange(lo as int, hi as int)) == Err::<Seq<Group>, Fault>(fault),
        },
{
    let ghost blob = chars@.subrange(lo as int, hi as int);
    let brace: [char; 1] = ['}'];
    let colon: [char; 1] = [':'];
    let mut spans: Vec<Span> = Vec::new();
    let mut pos = lo;
    proof {
        assert(groups_of(spans@, chars@) =~= Seq::<Group>::empty());
        assert(blob.subrange(0, blob.len() as int) =~= blob);
        assert(chars@.subrange(pos as int, hi as int) =~= blob);
        assert(Seq::<Group>::empty() + parse_groups(blob)->Ok_0 =~= parse_groups(blob)->Ok_0);
    }
    while pos < hi
        invariant
            lo <= pos <= hi <= chars@.len(),
            blob == chars@.subrange(lo as int, hi as int),
            brace@ == seq!['}'],
            colon@ == seq![':'],
            parse_groups(blob) == prepend(
                groups_of(spans@, chars@),
                parse_groups(chars@.subrange(pos as int, hi as int)),
            ),
            forall|i: int| 0 <= i < spans@.len() ==> (#[trigger] spans@[i]).valid(chars@.len() as int),
        decreases hi - pos,
    {
        let ghost s = chars@.subrange(pos as int, hi as int);
        let end = match find(chars, pos, hi, brace.as_slice()) {
            Some(i) => pos + i,
            None => hi,
        };
        let next = if end < hi {
            end + 1
        } else {
            hi
        };
        proof {
            assert(end - pos == piece_end(s));
            assert(s.subrange(0, end - pos) =~= chars@.subrange(pos as int, end as int));
            if end < hi {
                assert(s.subrange(end - pos + 1, s.len() as int) =~= chars@.subrange(next as int, hi as int));
            } else {
                assert(chars@.subrange(next as int, hi as int) =~= Seq::<char>::empty());
            }
        }
        if end > pos {
            if chars[pos] != '{' {
                return Err(Fault::MissingOpeningBrace);
            }
            proof {
                assert(s.subrange(0, end - pos).subrange(1, end - pos) =~= chars@.subrange(pos + 1, end as int));
            }
            match find(chars, pos + 1, end, colon.as_slice()) {
                None => {
                    return Err(Fault::MissingColon);
                },
                Some(c) => {
                    let span = Span {
                        key_lo: pos + 1,
                        key_hi: pos + 1 + c,
                        value_lo: pos + 2 + c,
                        value_hi: end,
                    };
                    proof {
                        let piece = s.subrange(0, end - pos);
                        assert(piece.subrange(1, 1 + c) =~= span.group(chars@).0);
                        assert(piece.subrange(2 + c, piece.len() as int) =~= span.group(chars@).1);
                        let before = groups_of(spans@, chars@);
                        let after = groups_of(spans@.push(span), chars@);
                        assert(after =~= before + seq![span.group(chars@)]);
                        let tail = parse_groups(chars@.subrange(next as int, hi as int));
                        if tail is Ok {
                            assert(before + (seq![span.group(chars@)] + tail->Ok_0) =~= after + tail->Ok_0);
                        }
                    }
                    spans.push(span);
                },
            }
        }
        pos = next;
    }
    proof {
        assert(chars@.subrange(pos as int, hi as int) =~= Seq::<char>::empty());
        assert(groups_of(spans@, chars@) + Seq::<Group>::empty() =~= groups_of(spans@, chars@));
    }
    Ok(spans)
}

spec fn pair_texts(pairs: Seq<(SmolStr, SmolStr)>) -> Seq<Group> {
    pairs.map_values(|pair: (SmolStr, SmolStr)| (smol_text(pair.0), smol_text(pair.1)))
}

spec fn distinct_keys(groups: Seq<Group>) -> bool {
    forall|i: int, j: int| 0 <= i < j < groups.len() ==> (#[trigger] groups[i]).0 != (#[trigger] groups[j]).0
}

/// A key is in the state exactly if one of the groups has it.
proof fn lemma_state_keys(groups: Seq<Group>, key: Seq<char>)
    ensures
        state_of(groups).dom().contains(key) <==> exists|i: int|
            0 <= i < groups.len() && (#[trigger] groups[i]).0 == key,
    decreases groups.len(),
{
    if groups.len() > 0 {
        let front = groups.drop_last();
        lemma_state_keys(front, key);
        if exists|i: int| 0 <= i < front.len() && (#[trigger] front[i]).0 == key {
            let i = choose|i: int| 0 <= i < front.len() && (#[trigger] front[i]).0 == key;
            assert(groups[i].0 == key);
        }
        if exists|i: int| 0 <= i < groups.len() && (#[trigger] groups[i]).0 == key {
            let i = choose|i: int| 0 <= i < groups.len() && (#[trigger] groups[i]).0 == key;
            if i < front.len() {
                assert(front[i].0 == key);
            }
        }
    }
}

/// Where no key stands twice, each group gives its key's value.
proof fn lemma_state_value(groups: Seq<Group>, i: int)
    requires
        distinct_keys(groups),
        0 <= i < groups.len(),
    ensures
        state_of(groups).dom().contains(groups[i].0),
        state_of(groups)[groups[i].0] == groups[i].1,
    decreases groups.len(),
{
    let front = groups.drop_last();
    if i < front.len() {
        assert(distinct_keys(front)) by {
            assert forall|a: int, b: int| 0 <= a < b < front.len() implies (#[trigger] front[a]).0
                != (#[trigger] front[b]).0 by {
                assert(groups[a].0 != groups[b].0);
            }
        }
        lemma_state_value(front, i);
        assert(groups[i].0 != groups[groups.len() - 1].0);
    }
}

/// Where no key stands twice, a new value for the key of group `i` may be
/// written in its place.
proof fn lemma_state_update(groups: Seq<Group>, i: int, value: Seq<char>)
    requires
        distinct_keys(groups),
        0 <= i < groups.len(),
    ensures
        state_of(groups.update(i, (groups[i].0, value))) == state_of(groups).insert(
            groups[i].0,
            value,
        ),
    decreases groups.len(),
{
    let key = groups[i].0;
    let after = groups.update(i, (key, value));
    let front = groups.drop_last();
    if i == groups.len() - 1 {
        assert(after.drop_last() =~= front);
        assert(state_of(front).insert(key, groups[i].1).insert(key, value) =~= state_of(
            front,
        ).insert(key, value));
    } else {
        assert(distinct_keys(front)) by {
            assert forall|a: int, b: int| 0 <= a < b < front.len() implies (#[trigger] front[a]).0
                != (#[trigger] front[b]).0 by {
                assert(groups[a].0 != groups[b].0);
            }
        }
        lemma_state_update(front, i, value);
        assert(after.drop_last() =~= front.update(i, (key, value)));
        let last = groups.last();
        assert(groups[i].0 != groups[groups.len() - 1].0);
        assert(state_of(front).insert(key, value).insert(last.0, last.1) =~= state_of(
            front,
        ).insert(last.0, last.1).insert(key, value));
    }
}

/// Where no key stands twice, the state has as many keys as there are
/// groups.
proof fn lemma_state_count(groups: Seq<Group>)
    requires
        distinct_keys(groups),
    ensures
        state_of(groups).dom().finite(),
        state_of(groups).dom().len() == groups.len(),
    decreases groups.len(),
{
    if groups.len() > 0 {
        let front = groups.drop_last();
        assert(distinct_keys(front)) by {
            assert forall|a: int, b: int| 0 <= a < b < front.len() implies (#[trigger] front[a]).0
                != (#[trigger] front[b]).0 by {
                assert(groups[a].0 != groups[b].0);
            }
        }
        lemma_state_count(front);
        lemma_state_keys(front, groups.last().0);
        if state_of(front).dom().contains(groups.last().0) {
            let i = choose|i: int| 0 <= i < front.len() && (#[trigger] front[i]).0 == groups.last().0;
            assert(groups[i].0 != groups[groups.len() - 1].0);
        }
    }
}

/// Each value of the state is the value of one of the groups.
pub(crate) proof fn lemma_state_from_group(groups: Seq<Group>, key: Seq<char>)
    requires
        state_of(groups).dom().contains(key),
    ensures
        exists|i: int| 0 <= i < groups.len() && #[trigger] groups[i] == (key, state_of(groups)[key]),
    decreases groups.len(),
{
    if groups.len() > 0 {
        let front = groups.drop_last();
        if groups.last().0 == key {
            assert(groups[groups.len() - 1] == (key, state_of(groups)[key]));
        } else {
            lemma_state_from_group(front, key);
            let i = choose|i: int|
                0 <= i < front.len() && #[trigger] front[i] == (key, state_of(front)[key]);
            assert(groups[i] == (key, state_of(groups)[key]));
        }
    }
}

/// One block of the table: a biome, a block and the block's state.
#[derive(Debug)]
pub struct Entry {
    biome: SmolStr,
    block: SmolStr,
    state: Vec<(SmolStr, SmolStr)>,
}

impl View for Entry {
    type V = EntryView;

    closed spec fn view(&self) -> EntryView {
        EntryView {
            biome: smol_text(self.biome),
            block: smol_text(self.block),
            state: state_of(pair_texts(self.state@)),
        }
    }
}

impl Entry {
    #[verifier::type_invariant]
    spec fn unique_keys(self) -> bool {
        distinct_keys(pair_texts(self.state@))
    }

    /// The biome in which the block stands.
    pub fn biome(&self) -> (name: &str)
        ensures
            name@ == self@.biome,
    {
        self.biome.as_str()
    }

    /// How many keys the block's state has.
    pub fn state_len(&self) -> (n: usize)
        ensures
            n == self@.state.dom().len(),
            self@.state.dom().finite(),
    {
        proof {
            use_type_invariant(self);
            lemma_state_count(pair_texts(self.state@));
        }
        self.state.len()
    }

    /// Puts `key` with `value` into `state`: in the place of the pair that
    /// has the key, or behind the others where none has it.
    fn put(state: &mut Vec<(SmolStr, SmolStr)>, key: SmolStr, value: SmolStr)
        requires
            distinct_keys(pair_texts(old(state)@)),
        ensures
            distinct_keys(pair_texts(final(state)@)),
            state_of(pair_texts(final(state)@)) == state_of(pair_texts(old(state)@)).insert(
                smol_text(key),
                smol_text(value),
            ),
    {
        let ghost before = pair_texts(state@);
        let mut j: usize = 0;
        while j < state.len() && !str_eq(state[j].0.as_str(), key.as_str())
            invariant
                j <= state@.len(),
                before == pair_texts(state@),
                forall|t: int| 0 <= t < j ==> (#[trigger] before[t]).0 != smol_text(key),
            decreases state@.len() - j,
        {
            j = j + 1;
        }
        if j < state.len() {
            proof {
                lemma_state_update(before, j as int, smol_text(value));
            }
            state.set(j, (key, value));
            proof {
                let after = pair_texts(state@);
                assert(after =~= before.update(j as int, (smol_text(key), smol_text(value))));
                assert forall|a: int, b: int| 0 <= a < b < after.len() implies (#[trigger] after[a]).0
                    != (#[trigger] after[b]).0 by {
                    assert(before[a].0 != before[b].0);
                }
            }
        } else {
            state.push((key, value));
            proof {
                let after = pair_texts(state@);
                assert(after =~= before.push((smol_text(key), smol_text(value))));
                assert(after.drop_last() =~= before);
                assert forall|a: int, b: int| 0 <= a < b < after.len() implies (#[trigger] after[a]).0
                    != (#[trigger] after[b]).0 by {
                    if b < before.len() {
                        assert(before[a].0 != before[b].0);
                    } else {
                        assert(before[a].0 != smol_text(key));
                    }
                }
            }
        }
    }

    /// The entry that `value` spells. The strings that it holds come from
    /// `pool`, which takes up the long ones that are new to it. Where
    /// `value` spells no entry the pool is left as it was.
    pub fn try_from(value: &str, pool: &mut InternPool) -> (r: Result<Entry, Fault>)
        ensures
            match r {
                Ok(entry) => {
                    &&& parse_entry(value@) matches Ok(spelling)
                    &&& entry@ == spelling.entry()
                    &&& final(pool).biomes@ == pooled(old(pool).biomes@, spelling.biome)
                    &&& final(pool).blocks@ == pooled(old(pool).blocks@, spelling.block)
                    &&& final(pool).state_keys@ == old(pool).state_keys@ + long_among(
                        keys_of(spelling.groups),
                    )
                    &&& final(pool).state_values@ == old(pool).state_values@ + long_among(
                        values_of(spelling.groups),
                    )
                },
                Err(fault) => parse_entry(value@) == Err::<Spelling, Fault>(fault) && *final(pool)
                    == *old(pool),
            },
    {
        let chars = chars_of(value);
        let n = chars.len();
        let token: [char; 8] = ['_', 'D', 'H', '-', 'B', 'S', 'W', '_'];
        let marker: [char; 7] = ['_', 'S', 'T', 'A', 'T', 'E', '_'];
        proof {
            assert(token@ =~= separator());
            assert(marker@ =~= state_marker());
            assert(chars@.subrange(0, n as int) =~= value@);
        }
        let biome_hi = match find(chars.as_slice(), 0, n, token.as_slice()) {
            Some(i) => i,
            None => {
                return Err(Fault::MissingSeparator);
            },
        };
        let tail_lo = biome_hi + 8;
        let cut = find(chars.as_slice(), tail_lo, n, marker.as_slice());
        let block_hi = match cut {
            Some(j) => tail_lo + j,
            None => n,
        };
        let blob_lo = match cut {
            Some(j) => tail_lo + j + 7,
            None => n,
        };
        let ghost tail = value@.subrange(tail_lo as int, n as int);
        proof {
            assert(chars@.subrange(tail_lo as int, n as int) =~= tail);
            match cut {
                Some(j) => {
                    assert(tail.subrange(j + 7, tail.len() as int) =~= chars@.subrange(
                        blob_lo as int,
                        n as int,
                    ));
                    assert(tail.subrange(0, j as int) =~= chars@.subrange(
                        tail_lo as int,
                        block_hi as int,
                    ));
                },
                None => {
                    assert(chars@.subrange(blob_lo as int, n as int) =~= Seq::<char>::empty());
                },
            }
        }
        let spans = match scan_groups(chars.as_slice(), blob_lo, n) {
            Ok(spans) => spans,
            Err(fault) => {
                return Err(fault);
            },
        };
        let ghost spelling = parse_entry(value@)->Ok_0;
        let ghost groups = spelling.groups;
        let biome = pool.biomes.intern(&chars.as_slice()[0..biome_hi]);
        let block = pool.blocks.intern(&chars.as_slice()[tail_lo..block_hi]);
        let mut state: Vec<(SmolStr, SmolStr)> = Vec::new();
        let mut k: usize = 0;
        proof {
            assert(groups == groups_of(spans@, chars@));
            assert(groups.take(0) =~= Seq::<Group>::empty());
            assert(keys_of(groups.take(0)) =~= Seq::<Seq<char>>::empty());
            assert(values_of(groups.take(0)) =~= Seq::<Seq<char>>::empty());
            assert(long_among(Seq::<Seq<char>>::empty()) =~= Set::<Seq<char>>::empty());
            assert(pool.state_keys@ + Set::<Seq<char>>::empty() =~= pool.state_keys@);
            assert(pool.state_values@ + Set::<Seq<char>>::empty() =~= pool.state_values@);
        }
        while k < spans.len()
            invariant
                k <= spans@.len(),
                groups == groups_of(spans@, chars@),
                forall|i: int| 0 <= i < spans@.len() ==> (#[trigger] spans@[i]).valid(chars@.len() as int),
                distinct_keys(pair_texts(state@)),
                state_of(pair_texts(state@)) == state_of(groups.take(k as int)),
                pool.biomes@ == pooled(old(pool).biomes@, spelling.biome),
                pool.blocks@ == pooled(old(pool).blocks@, spelling.block),
                pool.state_keys@ == old(pool).state_keys@ + long_among(keys_of(groups.take(k as int))),
                pool.state_values@ == old(pool).state_values@ + long_among(
                    values_of(groups.take(k as int)),
                ),
            decreases spans@.len() - k,
        {
            let span = &spans[k];
            assert(span.valid(chars@.len() as int));
            let key = pool.state_keys.intern(&chars.as_slice()[span.key_lo..span.key_hi]);
            let value = pool.state_values.intern(&chars.as_slice()[span.value_lo..span.value_hi]);
            proof {
                let group = groups[k as int];
                assert(group == (smol_text(key), smol_text(value)));
                assert(groups.take(k + 1) =~= groups.take(k as int).push(group));
                assert(groups.take(k + 1).drop_last() =~= groups.take(k as int));
                assert(keys_of(groups.take(k + 1)) =~= keys_of(groups.take(k as int)).push(group.0));
                assert(values_of(groups.take(k + 1)) =~= values_of(groups.take(k as int)).push(
                    group.1,
                ));
                lemma_long_among_push(
                    old(pool).state_keys@,
                    keys_of(groups.take(k as int)),
                    group.0,
                );
                lemma_long_among_push(
                    old(pool).state_values@,
                    values_of(groups.take(k as int)),
                    group.1,
                );
            }
            Entry::put(&mut state, key, value);
            k = k + 1;
        }
        proof {
            assert(groups.take(k as int) =~= groups);
        }
        Ok(Entry { biome, block, state })
    }

    /// Whether the block stands in the Nether.
    pub fn in_nether(&self) -> (nether: bool)
        ensures
            nether == is_nether_biome(self@.biome),
    {
        let biome = self.biome.as_str();
        str_eq(biome, "minecraft:nether_wastes") || str_eq(biome, "minecraft:crimson_forest")
            || str_eq(biome, "minecraft:warped_forest") || str_eq(
            biome,
            "minecraft:soul_sand_valley",
        ) || str_eq(biome, "minecraft:basalt_deltas")
    }
}

impl Block for Entry {
    open spec fn identifier(&self) -> Seq<char> {
        self@.block
    }

    fn full_identifier(&self) -> (id: &str) {
        self.block.as_str()
    }

    fn get_state(&self, state: &str) -> (value: Option<&str>)
        ensures
            match value {
                Some(v) => self@.state.dom().contains(state@) && v@ == self@.state[state@],
                None => !self@.state.dom().contains(state@),
            },
    {
        let ghost groups = pair_texts(self.state@);
        proof {
            use_type_invariant(self);
            lemma_state_keys(groups, state@);
        }
        let mut i: usize = 0;
        while i < self.state.len()
            invariant
                i <= self.state@.len(),
                groups == pair_texts(self.state@),
                distinct_keys(groups),
                forall|j: int| 0 <= j < i ==> (#[trigger] groups[j]).0 != state@,
            decreases self.state@.len() - i,
        {
            if str_eq(self.state[i].0.as_str(), state) {
                proof {
                    lemma_state_value(groups, i as int);
                }
                return Some(self.state[i].1.as_str());
            }
            i = i + 1;
        }
        None
    }
}

impl Default for Entry {
    /// Air in the plains.
    fn default() -> (entry: Entry)
        ensures
            entry@ == (EntryView {
                biome: "minecraft:plains"@,
                block: "AIR"@,
                state: Map::empty(),
            }),
    {
        let biome = chars_of("minecraft:plains");
        let block = chars_of("AIR");
        Entry {
            biome: smol_from_chars(biome.as_slice()),
            block: smol_from_chars(block.as_slice()),
            state: Vec::new(),
        }
    }
}

impl PartialEq for Entry {
    /// Whether the two entries have the same biome, the same block and the
    /// same state.
    fn eq(&self, other: &Entry) -> (same: bool) {
        proof {
            use_type_invariant(self);
            use_type_invariant(other);
            lemma_state_count(pair_texts(self.state@));
            lemma_state_count(pair_texts(other.state@));
        }
        if !str_eq(self.biome.as_str(), other.biome.as_str()) || !str_eq(
            self.block.as_str(),
            other.block.as_str(),
        ) || self.state.len() != other.state.len() {
            return false;
        }
        let ghost mine = pair_texts(self.state@);
        let mut i: usize = 0;
        while i < self.state.len()
            invariant
                i <= self.state@.len(),
                mine == pair_texts(self.state@),
                distinct_keys(mine),
                forall|j: int|
                    0 <= j < i ==> other@.state.dom().contains((#[trigger] mine[j]).0)
                        && other@.state[mine[j].0] == mine[j].1,
            decreases self.state@.len() - i,
        {
            proof {
                lemma_state_value(mine, i as int);
            }
            match other.get_state(self.state[i].0.as_str()) {
                Some(value) => {
                    if !str_eq(value, self.state[i].1.as_str()) {
                        return false;
                    }
                },
                None => {
                    return false;
                },
            }
            i = i + 1;
        }
        proof {
            assert forall|key: Seq<char>| #[trigger]
                self@.state.dom().contains(key) implies other@.state.dom().contains(key)
                && other@.state[key] == self@.state[key] by {
                lemma_state_keys(mine, key);
                let j = choose|j: int| 0 <= j < mine.len() && (#[trigger] mine[j]).0 == key;
                lemma_state_value(mine, j);
            }
            assert(self@.state.dom().subset_of(other@.state.dom()));
            vstd::set_lib::lemma_subset_equality(self@.state.dom(), other@.state.dom());
            assert(self@.state =~= other@.state);
        }
        true
    }
}

impl Eq for Entry {

}

impl PartialEqSpecImpl for Entry {
    open spec fn obeys_eq_spec() -> bool {
        true
    }

    open spec fn eq_spec(&self, other: &Entry) -> bool {
        self@ == other@
    }
}

} // verus!
