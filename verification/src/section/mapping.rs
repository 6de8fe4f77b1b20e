//! The table that turns the ids of data points into blocks, and the
//! reader of its binary form.
use crate::compression::Payload;
use crate::error::Fault;
use crate::java::{be_u32, readUTF, read_u32, utf_at};
use crate::section::data::DataPoint;
use crate::section::entry::{
    keys_of, lemma_state_from_group, parse_entry, state_of, values_of, Entry, EntryView, Group,
    Spelling,
};
use crate::section::intern::{
    fits_inline, lemma_long_among_add, lemma_long_among_push, long_among, InternPool,
};
use vstd::prelude::*;

verus! {

/// The biomes of `spellings`, in order.
pub open spec fn biomes_of(spellings: Seq<Spelling>) -> Seq<Seq<char>> {
    spellings.map_values(|spelling: Spelling| spelling.biome)
}

/// The blocks of `spellings`, in order.
pub open spec fn blocks_of(spellings: Seq<Spelling>) -> Seq<Seq<char>> {
    spellings.map_values(|spelling: Spelling| spelling.block)
}

/// The groups of all of `spellings`, in order.
pub open spec fn groups_among(spellings: Seq<Spelling>) -> Seq<Group>
    decreases spellings.len(),
{
    if spellings.len() == 0 {
        Seq::empty()
    } else {
        groups_among(spellings.drop_last()) + spellings.last().groups
    }
}

/// Whether `after` is `before` with the long strings of `spellings` taken
/// up, each into the pool of its kind.
pub open spec fn pool_with(before: InternPool, spellings: Seq<Spelling>, after: InternPool) -> bool {
    &&& after.biomes@ == before.biomes@ + long_among(biomes_of(spellings))
    &&& after.blocks@ == before.blocks@ + long_among(blocks_of(spellings))
    &&& after.state_keys@ == before.state_keys@ + long_among(keys_of(groups_among(spellings)))
    &&& after.state_values@ == before.state_values@ + long_among(
        values_of(groups_among(spellings)),
    )
}

/// Whether each pool of `after` holds what the same pool of `before` holds.
pub open spec fn pool_grew(before: InternPool, after: InternPool) -> bool {
    &&& before.biomes@.subset_of(after.biomes@)
    &&& before.blocks@.subset_of(after.blocks@)
    &&& before.state_keys@.subset_of(after.state_keys@)
    &&& before.state_values@.subset_of(after.state_values@)
}

/// Whether `pool` holds each string of `entry` that is too long to be kept
/// inline.
pub open spec fn entry_pooled(entry: EntryView, pool: InternPool) -> bool {
    &&& !fits_inline(entry.biome) ==> pool.biomes@.contains(entry.biome)
    &&& !fits_inline(entry.block) ==> pool.blocks@.contains(entry.block)
    &&& forall|key: Seq<char>| #[trigger]
        entry.state.dom().contains(key) ==> {
            &&& !fits_inline(key) ==> pool.state_keys@.contains(key)
            &&& !fits_inline(entry.state[key]) ==> pool.state_values@.contains(entry.state[key])
        }
}

/// The groups of each spelling are among the groups of all.
proof fn lemma_groups_among(spellings: Seq<Spelling>, i: int, j: int)
    requires
        0 <= i < spellings.len(),
        0 <= j < spellings[i].groups.len(),
    ensures
        groups_among(spellings).contains(spellings[i].groups[j]),
    decreases spellings.len(),
{
    let front = spellings.drop_last();
    let all = groups_among(spellings);
    if i == spellings.len() - 1 {
        assert(all[groups_among(front).len() + j] == spellings[i].groups[j]);
    } else {
        lemma_groups_among(front, i, j);
        let k = choose|k: int|
            0 <= k < groups_among(front).len() && groups_among(front)[k] == spellings[i].groups[j];
        assert(all[k] == spellings[i].groups[j]);
    }
}

/// A pool that has taken up the strings of some spellings has grown, and
/// holds the long strings of each of their entries: whoever spells an
/// equal string later is handed the pooled copy.
pub proof fn lemma_pool_holds(
    before: InternPool,
    spellings: Seq<Spelling>,
    after: InternPool,
    i: int,
)
    requires
        pool_with(before, spellings, after),
        0 <= i < spellings.len(),
    ensures
        pool_grew(before, after),
        entry_pooled(spellings[i].entry(), after),
{
    let spelling = spellings[i];
    let entry = spelling.entry();
    assert(biomes_of(spellings)[i] == entry.biome);
    assert(blocks_of(spellings)[i] == entry.block);
    let all = groups_among(spellings);
    assert forall|key: Seq<char>| #[trigger] entry.state.dom().contains(key) implies {
        &&& !fits_inline(key) ==> after.state_keys@.contains(key)
        &&& !fits_inline(entry.state[key]) ==> after.state_values@.contains(entry.state[key])
    } by {
        lemma_state_from_group(spelling.groups, key);
        let j = choose|j: int|
            0 <= j < spelling.groups.len() && #[trigger] spelling.groups[j] == (
                key,
                state_of(spelling.groups)[key],
            );
        lemma_groups_among(spellings, i, j);
        let k = choose|k: int| 0 <= k < all.len() && all[k] == spelling.groups[j];
        assert(keys_of(all)[k] == key);
        assert(values_of(all)[k] == entry.state[key]);
    }
}

/// The spellings of the `count` strings that begin at index `pos` of
/// `data`, as far as they are read before something is wrong, and what is
/// wrong: a string that cannot be read, one that spells no entry, or bytes
/// behind the last string.
pub open spec fn read_entries(data: Seq<u8>, pos: int, count: nat) -> (Seq<Spelling>, Option<Fault>)
    decreases count,
{
    if count == 0 {
        if pos == data.len() {
            (Seq::empty(), None)
        } else {
            (Seq::empty(), Some(Fault::TrailingBytes))
        }
    } else {
        match utf_at(data, pos) {
            Err(fault) => (Seq::empty(), Some(fault)),
            Ok((text, next)) => match parse_entry(text) {
                Err(fault) => (Seq::empty(), Some(fault)),
                Ok(spelling) => {
                    let rest = read_entries(data, next, (count - 1) as nat);
                    (seq![spelling] + rest.0, rest.1)
                },
            },
        }
    }
}

/// What is read of the table that `data` holds: a count of four bytes,
/// then that many strings.
pub open spec fn read_table(data: Seq<u8>) -> (Seq<Spelling>, Option<Fault>) {
    if data.len() < 4 {
        (Seq::empty(), Some(Fault::TruncatedPrefix))
    } else {
        read_entries(data, 4, be_u32(data[0], data[1], data[2], data[3]) as nat)
    }
}

/// The entries that `spellings` spell.
pub open spec fn entries_of(spellings: Seq<Spelling>) -> Seq<EntryView> {
    spellings.map_values(|spelling: Spelling| spelling.entry())
}

/// The table that `data` holds: the entries that its strings spell, if
/// nothing is wrong with it.
pub open spec fn parse_mapping(data: Seq<u8>) -> Result<Seq<EntryView>, Fault> {
    match read_table(data).1 {
        None => Ok(entries_of(read_table(data).0)),
        Some(fault) => Err(fault),
    }
}

/// The blocks of one section, found by the ids that its data points hold.
#[derive(Debug)]
pub struct Mapping(Vec<Entry>);

impl View for Mapping {
    type V = Seq<EntryView>;

    closed spec fn view(&self) -> Seq<EntryView> {
        self.0@.map_values(|entry: Entry| entry@)
    }
}

impl Mapping {
    /// How many entries the table has.
    pub fn len(&self) -> (n: usize)
        ensures
            n == self@.len(),
    {
        self.0.len()
    }

    /// The entry with the id `index`.
    pub fn get(&self, index: usize) -> (entry: &Entry)
        requires
            index < self@.len(),
        ensures
            entry@ == self@[index as int],
    {
        &self.0[index]
    }

    /// The entry of the block of `point`.
    pub fn entry(&self, point: &DataPoint) -> (entry: &Entry)
        requires
            point@.id < self@.len(),
        ensures
            entry@ == self@[point@.id as int],
    {
        &self.0[point.id() as usize]
    }

    /// The table that `data` holds. The strings of its entries come from
    /// `pool`, which takes up the long strings of the entries that are
    /// read, also where the table is refused for what follows them.
    pub fn try_from(data: &[u8], pool: &mut InternPool) -> (r: Result<Mapping, Fault>)
        ensures
            pool_with(*old(pool), read_table(data@).0, *final(pool)),
            match r {
                Ok(mapping) => parse_mapping(data@) == Ok::<Seq<EntryView>, Fault>(mapping@),
                Err(fault) => parse_mapping(data@) == Err::<Seq<EntryView>, Fault>(fault),
            },
    {
        proof {
            assert(biomes_of(Seq::<Spelling>::empty()) =~= Seq::<Seq<char>>::empty());
            assert(blocks_of(Seq::<Spelling>::empty()) =~= Seq::<Seq<char>>::empty());
            assert(keys_of(Seq::<Group>::empty()) =~= Seq::<Seq<char>>::empty());
            assert(values_of(Seq::<Group>::empty()) =~= Seq::<Seq<char>>::empty());
            assert(long_among(Seq::<Seq<char>>::empty()) =~= Set::<Seq<char>>::empty());
            assert(pool.biomes@ + Set::<Seq<char>>::empty() =~= pool.biomes@);
            assert(pool.blocks@ + Set::<Seq<char>>::empty() =~= pool.blocks@);
            assert(pool.state_keys@ + Set::<Seq<char>>::empty() =~= pool.state_keys@);
            assert(pool.state_values@ + Set::<Seq<char>>::empty() =~= pool.state_values@);
        }
        if data.len() < 4 {
            return Err(Fault::TruncatedPrefix);
        }
        let count = read_u32(data, 0);
        let mut entries: Vec<Entry> = Vec::new();
        let mut pos: usize = 4;
        let mut done: u32 = 0;
        let ghost whole = read_table(data@);
        let ghost mut read: Seq<Spelling> = Seq::empty();
        proof {
            assert(read + whole.0 =~= whole.0);
            assert(entries@.map_values(|entry: Entry| entry@) =~= entries_of(read));
        }
        while done < count
            invariant
                done <= count,
                4 <= pos <= data@.len(),
                data@.len() >= 4,
                count == be_u32(data@[0], data@[1], data@[2], data@[3]),
                whole == read_table(data@),
                whole.0 == read + read_entries(data@, pos as int, (count - done) as nat).0,
                whole.1 == read_entries(data@, pos as int, (count - done) as nat).1,
                entries@.map_values(|entry: Entry| entry@) == entries_of(read),
                pool_with(*old(pool), read, *pool),
            decreases count - done,
        {
            proof {
                assert(read + Seq::<Spelling>::empty() =~= read);
            }
            let (text, next) = match readUTF(data, pos) {
                Ok(found) => found,
                Err(fault) => {
                    return Err(fault);
                },
            };
            let entry = match Entry::try_from(text.as_str(), pool) {
                Ok(entry) => entry,
                Err(fault) => {
                    return Err(fault);
                },
            };
            proof {
                let spelling = parse_entry(text@)->Ok_0;
                let longer = read.push(spelling);
                let rest = read_entries(data@, next as int, (count - done - 1) as nat);
                assert(read + (seq![spelling] + rest.0) =~= longer + rest.0);
                let views = entries@.map_values(|entry: Entry| entry@);
                assert(entry@ == spelling.entry());
                assert(entries@.push(entry).map_values(|entry: Entry| entry@) =~= views.push(
                    entry@,
                ));
                assert(entries_of(longer) =~= entries_of(read).push(spelling.entry()));
                assert(biomes_of(longer) =~= biomes_of(read).push(spelling.biome));
                assert(blocks_of(longer) =~= blocks_of(read).push(spelling.block));
                lemma_long_among_push(old(pool).biomes@, biomes_of(read), spelling.biome);
                lemma_long_among_push(old(pool).blocks@, blocks_of(read), spelling.block);
                assert(longer.drop_last() =~= read);
                let front = groups_among(read);
                assert(keys_of(front + spelling.groups) =~= keys_of(front) + keys_of(
                    spelling.groups,
                ));
                assert(values_of(front + spelling.groups) =~= values_of(front) + values_of(
                    spelling.groups,
                ));
                lemma_long_among_add(
                    old(pool).state_keys@,
                    keys_of(front),
                    keys_of(spelling.groups),
                );
                lemma_long_among_add(
                    old(pool).state_values@,
                    values_of(front),
                    values_of(spelling.groups),
                );
                read = longer;
            }
            entries.push(entry);
            pos = next;
            done = done + 1;
        }
        proof {
            assert(read + Seq::<Spelling>::empty() =~= read);
        }
        if pos != data.len() {
            return Err(Fault::TrailingBytes);
        }
        Ok(Mapping(entries))
    }
}

impl Payload for Mapping {
    type Model = Seq<EntryView>;

    type Context = InternPool;

    open spec fn model(&self) -> Seq<EntryView> {
        self@
    }

    open spec fn parse(bytes: Seq<u8>) -> Result<Seq<EntryView>, Fault> {
        parse_mapping(bytes)
    }

    open spec fn carried(bytes: Seq<u8>, before: InternPool, after: InternPool) -> bool {
        pool_with(before, read_table(bytes).0, after)
    }

    fn decode(bytes: &[u8], context: &mut InternPool) -> (r: Result<Mapping, Fault>) {
        Mapping::try_from(bytes, context)
    }
}

} // verus!
