//! What is seen of a column from above: the topmost block through which
//! light does not pass, and in the Nether the topmost such block below the
//! roof.
use crate::block::{transparent_by_name, Block};
use crate::section::data::{DataPoint, DataPointView};
use crate::section::entry::{is_nether_biome, EntryView};
use crate::section::mapping::Mapping;
use vstd::prelude::*;

verus! {

/// How far a walk down a column has come.
#[derive(Debug, Clone, Copy, PartialEq, Eq, Structural)]
pub struct Walk {
    /// Whether no block has been met yet through which light does not pass.
    pub above_roof: bool,
    /// Whether no gap has been met yet below the first such block.
    pub in_roof: bool,
    /// Whether the section lies in the Nether, once a block has told.
    pub nether: Option<bool>,
}

impl Walk {
    /// The walk before its first step, in a section of which `nether` is
    /// known.
    pub open spec fn start(nether: Option<bool>) -> Walk {
        Walk { above_roof: true, in_roof: true, nether }
    }
}

/// Whether each of `points` has an entry in a mapping of `len` entries.
pub open spec fn mapped(points: Seq<DataPointView>, len: nat) -> bool {
    forall|i: int| 0 <= i < points.len() ==> (#[trigger] points[i]).id < len
}

/// The index of the point that is seen of `points`, walked from `from`
/// down, and whether the section lies in the Nether, as far as known by
/// then. Light passes through some blocks: they are passed over. In the
/// Nether the blocks of the roof are passed over too: all those above the
/// first gap below the topmost block.
pub open spec fn seen_from(
    points: Seq<DataPointView>,
    mapping: Seq<EntryView>,
    from: int,
    walk: Walk,
) -> (Option<int>, Option<bool>)
    decreases points.len() - from,
{
    if from < 0 || from >= points.len() {
        (None, walk.nether)
    } else {
        let entry = mapping[points[from].id as int];
        if transparent_by_name(entry.block) {
            seen_from(
                points,
                mapping,
                from + 1,
                Walk { above_roof: walk.above_roof, in_roof: walk.above_roof, nether: walk.nether },
            )
        } else {
            let nether = match walk.nether {
                Some(known) => known,
                None => is_nether_biome(entry.biome),
            };
            if nether && walk.in_roof {
                seen_from(
                    points,
                    mapping,
                    from + 1,
                    Walk { above_roof: false, in_roof: walk.in_roof, nether: Some(nether) },
                )
            } else {
                (Some(from), Some(nether))
            }
        }
    }
}

/// The index of the point that is seen of `column` from above, and
/// whether the section lies in the Nether, as far as known by then.
pub fn seen(column: &[DataPoint], mapping: &Mapping, nether: Option<bool>) -> (r: (
    Option<usize>,
    Option<bool>,
))
    requires
        mapped(column@.map_values(|point: DataPoint| point@), mapping@.len()),
    ensures
        r.1 == seen_from(
            column@.map_values(|point: DataPoint| point@),
            mapping@,
            0,
            Walk::start(nether),
        ).1,
        match r.0 {
            Some(index) => index < column@.len() && seen_from(
                column@.map_values(|point: DataPoint| point@),
                mapping@,
                0,
                Walk::start(nether),
            ).0 == Some(index as int),
            None => seen_from(
                column@.map_values(|point: DataPoint| point@),
                mapping@,
                0,
                Walk::start(nether),
            ).0 is None,
        },
{
    let ghost points = column@.map_values(|point: DataPoint| point@);
    let ghost whole = seen_from(points, mapping@, 0, Walk::start(nether));
    let mut above_roof = true;
    let mut in_roof = true;
    let mut told = nether;
    let mut i: usize = 0;
    while i < column.len()
        invariant
            i <= column@.len(),
            points == column@.map_values(|point: DataPoint| point@),
            mapped(points, mapping@.len()),
            whole == seen_from(points, mapping@, 0, Walk::start(nether)),
            whole == seen_from(points, mapping@, i as int, Walk { above_roof, in_roof, nether: told }),
        decreases column@.len() - i,
    {
        assert(points[i as int] == column@[i as int]@);
        let entry = mapping.get(column[i].id() as usize);
        if entry.is_transparent() {
            in_roof = above_roof;
        } else {
            above_roof = false;
            let known = match told {
                Some(known) => known,
                None => entry.in_nether(),
            };
            told = Some(known);
            if !(known && in_roof) {
                return (Some(i), told);
            }
        }
        i = i + 1;
    }
    (None, told)
}

} // verus!
