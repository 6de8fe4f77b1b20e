//! The data points of a section: one packed word for each run of equal
//! blocks in a column, and the columns as the payload holds them.
use crate::compression::Payload;
use crate::error::Fault;
use crate::java::{be_u16, be_u32, read_u16, read_u32};
use crate::light::LightLevel;
use crate::section::columns::{Columns, LEN};
use vstd::prelude::*;
use vstd::std_specs::convert::{FromSpec, FromSpecImpl};

verus! {

/// The greatest height, and the greatest lowest block, that a data point
/// can hold.
pub const MAX_SPAN: u16 = 0xfff;

/// What a data point holds.
pub struct DataPointView {
    /// The index of the point's block in the mapping.
    pub id: u32,
    /// How many blocks the point spans.
    pub height: u16,
    /// The lowest of those blocks, counted from the section's floor.
    pub min_y: u16,
    pub sky_light: LightLevel,
    pub block_light: LightLevel,
}

impl DataPointView {
    /// Whether a data point can hold these values.
    pub open spec fn fits(self) -> bool {
        self.height <= MAX_SPAN && self.min_y <= MAX_SPAN
    }
}

/// The upper half of a point's word: the height in the lowest 12 bits, the
/// lowest block in the next 12, then the two light levels in 4 bits each.
pub open spec fn pack_meta(height: u16, min_y: u16, sky_light: u8, block_light: u8) -> u32 {
    (height as u32 & 0xfff) | ((min_y as u32 & 0xfff) << 12) | ((sky_light as u32 & 0xf) << 24) | ((
    block_light as u32 & 0xf) << 28)
}

/// The height that the upper half of a word holds.
pub open spec fn meta_height(meta: u32) -> u16 {
    (meta & 0xfff) as u16
}

/// The lowest block that the upper half of a word holds.
pub open spec fn meta_min_y(meta: u32) -> u16 {
    ((meta >> 12) & 0xfff) as u16
}

/// The light of the sky that the upper half of a word holds.
pub open spec fn meta_sky_light(meta: u32) -> u8 {
    ((meta >> 24) & 0xf) as u8
}

/// The light of blocks that the upper half of a word holds.
pub open spec fn meta_block_light(meta: u32) -> u8 {
    ((meta >> 28) & 0xf) as u8
}

/// What is packed into the upper half of a word comes out again, and what
/// comes out of one packs into it again.
pub proof fn lemma_meta_round_trip(height: u16, min_y: u16, sky_light: u8, block_light: u8, meta: u32)
    ensures
        height <= 0xfff && min_y <= 0xfff && sky_light <= 15 && block_light <= 15 ==> {
            let packed = pack_meta(height, min_y, sky_light, block_light);
            &&& meta_height(packed) == height
            &&& meta_min_y(packed) == min_y
            &&& meta_sky_light(packed) == sky_light
            &&& meta_block_light(packed) == block_light
        },
        pack_meta(
            meta_height(meta),
            meta_min_y(meta),
            meta_sky_light(meta),
            meta_block_light(meta),
        ) == meta,
        meta_height(meta) <= 0xfff,
        meta_min_y(meta) <= 0xfff,
        meta_sky_light(meta) <= 15,
        meta_block_light(meta) <= 15,
{
    assert(height <= 0xfff && min_y <= 0xfff && sky_light <= 15 && block_light <= 15 ==> {
        let packed = pack_meta(height, min_y, sky_light, block_light);
        &&& meta_height(packed) == height
        &&& meta_min_y(packed) == min_y
        &&& meta_sky_light(packed) == sky_light
        &&& meta_block_light(packed) == block_light
    }) by (bit_vector);
    assert(pack_meta(
        meta_height(meta),
        meta_min_y(meta),
        meta_sky_light(meta),
        meta_block_light(meta),
    ) == meta) by (bit_vector);
    assert(meta_height(meta) <= 0xfff && meta_min_y(meta) <= 0xfff && meta_sky_light(meta) <= 15
        && meta_block_light(meta) <= 15) by (bit_vector);
}

/// One run of equal blocks in a column.
#[derive(Debug, Clone, Copy, PartialEq, Eq, Structural)]
pub struct DataPoint {
    id: u32,
    meta: u32,
}

impl View for DataPoint {
    type V = DataPointView;

    closed spec fn view(&self) -> DataPointView {
        DataPointView {
            id: self.id,
            height: meta_height(self.meta),
            min_y: meta_min_y(self.meta),
            sky_light: LightLevel::of_value(meta_sky_light(self.meta)),
            block_light: LightLevel::of_value(meta_block_light(self.meta)),
        }
    }
}

/// The data point that eight bytes spell: a word of 64 bits, its highest
/// byte first, whose lower half is the id.
pub open spec fn point_of(bytes: Seq<u8>) -> DataPointView {
    let meta = be_u32(bytes[0], bytes[1], bytes[2], bytes[3]) as u32;
    DataPointView {
        id: be_u32(bytes[4], bytes[5], bytes[6], bytes[7]) as u32,
        height: meta_height(meta),
        min_y: meta_min_y(meta),
        sky_light: LightLevel::of_value(meta_sky_light(meta)),
        block_light: LightLevel::of_value(meta_block_light(meta)),
    }
}

/// The eight bytes that spell a data point. They are the only ones that do.
pub open spec fn bytes_of(point: DataPointView) -> Seq<u8> {
    let meta = pack_meta(
        point.height,
        point.min_y,
        point.sky_light.value(),
        point.block_light.value(),
    );
    seq![
        (meta >> 24) as u8,
        (meta >> 16) as u8,
        (meta >> 8) as u8,
        meta as u8,
        (point.id >> 24) as u8,
        (point.id >> 16) as u8,
        (point.id >> 8) as u8,
        point.id as u8,
    ]
}

proof fn lemma_word_bytes(word: u32)
    ensures
        be_u32((word >> 24) as u8, (word >> 16) as u8, (word >> 8) as u8, word as u8) == word,
{
    let b0 = (word >> 24) as u8;
    let b1 = (word >> 16) as u8;
    let b2 = (word >> 8) as u8;
    let b3 = word as u8;
    assert(word == (b0 as u32) * 0x100_0000 + (b1 as u32) * 0x1_0000 + (b2 as u32) * 0x100 + (
    b3 as u32)) by (bit_vector)
        requires
            b0 == (word >> 24) as u8,
            b1 == (word >> 16) as u8,
            b2 == (word >> 8) as u8,
            b3 == word as u8,
    ;
}

proof fn lemma_bytes_word(b0: u8, b1: u8, b2: u8, b3: u8)
    ensures
        ({
            let word = be_u32(b0, b1, b2, b3) as u32;
            &&& word == be_u32(b0, b1, b2, b3)
            &&& (word >> 24) as u8 == b0
            &&& (word >> 16) as u8 == b1
            &&& (word >> 8) as u8 == b2
            &&& word as u8 == b3
        }),
{
    let word = ((b0 as u32) * 0x100_0000 + (b1 as u32) * 0x1_0000 + (b2 as u32) * 0x100 + (
    b3 as u32)) as u32;
    assert(word == be_u32(b0, b1, b2, b3));
    assert((word >> 24) as u8 == b0 && (word >> 16) as u8 == b1 && (word >> 8) as u8 == b2 && word as u8
        == b3) by (bit_vector)
        requires
            word == (b0 as u32) * 0x100_0000 + (b1 as u32) * 0x1_0000 + (b2 as u32) * 0x100 + (
            b3 as u32),
    ;
}

/// A data point is spelled by eight bytes, and they spell it.
pub proof fn lemma_point_round_trip(point: DataPointView)
    requires
        point.fits(),
    ensures
        bytes_of(point).len() == 8,
        point_of(bytes_of(point)) == point,
{
    let meta = pack_meta(
        point.height,
        point.min_y,
        point.sky_light.value(),
        point.block_light.value(),
    );
    lemma_word_bytes(meta);
    lemma_word_bytes(point.id);
    lemma_meta_round_trip(
        point.height,
        point.min_y,
        point.sky_light.value(),
        point.block_light.value(),
        meta,
    );
}

/// Eight bytes spell a data point, and it is spelled by them.
pub proof fn lemma_bytes_round_trip(bytes: Seq<u8>)
    requires
        bytes.len() == 8,
    ensures
        point_of(bytes).fits(),
        bytes_of(point_of(bytes)) == bytes,
{
    let meta = be_u32(bytes[0], bytes[1], bytes[2], bytes[3]) as u32;
    lemma_bytes_word(bytes[0], bytes[1], bytes[2], bytes[3]);
    lemma_bytes_word(bytes[4], bytes[5], bytes[6], bytes[7]);
    lemma_meta_round_trip(0, 0, 0, 0, meta);
    assert(bytes_of(point_of(bytes)) =~= bytes);
}

impl DataPoint {
    /// The data point that holds these values.
    pub fn new(
        id: u32,
        height: u16,
        min_y: u16,
        sky_light: LightLevel,
        block_light: LightLevel,
    ) -> (point: DataPoint)
        requires
            height <= MAX_SPAN,
            min_y <= MAX_SPAN,
        ensures
            point@ == (DataPointView { id, height, min_y, sky_light, block_light }),
    {
        let sky = sky_light.as_u8();
        let block = block_light.as_u8();
        let meta = (height as u32 & 0xfff) | ((min_y as u32 & 0xfff) << 12) | ((sky as u32 & 0xf)
            << 24) | ((block as u32 & 0xf) << 28);
        proof {
            lemma_meta_round_trip(height, min_y, sky, block, meta);
        }
        DataPoint { id, meta }
    }

    /// The index of the point's block in the mapping.
    #[must_use]
    pub fn id(&self) -> (id: u32)
        ensures
            id == self@.id,
    {
        self.id
    }

    /// How many blocks the point spans.
    #[must_use]
    pub fn height(&self) -> (height: u16)
        ensures
            height == self@.height,
            height <= MAX_SPAN,
    {
        let meta = self.meta;
        assert((meta >> 0) & 0xfff == meta & 0xfff && meta & 0xfff <= 0xfff) by (bit_vector);
        ((self.meta >> 0) & 0xfff) as u16
    }

    /// The lowest block of the point, counted from the section's floor.
    #[must_use]
    pub fn min_y(&self) -> (min_y: u16)
        ensures
            min_y == self@.min_y,
            min_y <= MAX_SPAN,
    {
        let meta = self.meta;
        assert((meta >> 12) & 0xfff <= 0xfff) by (bit_vector);
        ((self.meta >> 12) & 0xfff) as u16
    }

    /// The light of the sky at the point.
    #[must_use]
    pub fn sky_light(&self) -> (level: LightLevel)
        ensures
            level == self@.sky_light,
    {
        let meta = self.meta;
        assert((meta >> 24) & 0xf <= 15) by (bit_vector);
        let level = ((self.meta >> 24) & 0xf) as u8;
        match LightLevel::try_from(level) {
            Ok(level) => level,
            Err(_) => LightLevel::Level15,
        }
    }

    /// The light of blocks at the point.
    #[must_use]
    pub fn block_light(&self) -> (level: LightLevel)
        ensures
            level == self@.block_light,
    {
        let meta = self.meta;
        assert((meta >> 28) & 0xf <= 15) by (bit_vector);
        let level = ((self.meta >> 28) & 0xf) as u8;
        match LightLevel::try_from(level) {
            Ok(level) => level,
            Err(_) => LightLevel::Level15,
        }
    }

    /// The eight bytes that spell the point.
    pub fn to_be_bytes(&self) -> (bytes: [u8; 8])
        ensures
            bytes@ == bytes_of(self@),
    {
        let meta = self.meta;
        let id = self.id;
        proof {
            lemma_meta_round_trip(0, 0, 0, 0, meta);
            lemma_light_values(meta_sky_light(meta));
            lemma_light_values(meta_block_light(meta));
        }
        let bytes = [
            (meta >> 24) as u8,
            (meta >> 16) as u8,
            (meta >> 8) as u8,
            meta as u8,
            (id >> 24) as u8,
            (id >> 16) as u8,
            (id >> 8) as u8,
            id as u8,
        ];
        assert(bytes@ =~= bytes_of(self@));
        bytes
    }
}

proof fn lemma_light_values(value: u8)
    requires
        value <= 15,
    ensures
        LightLevel::of_value(value).value() == value,
{
}

impl From<[u8; 8]> for DataPoint {
    /// The data point that `value` spells.
    fn from(value: [u8; 8]) -> (point: DataPoint) {
        let meta = read_u32(value.as_slice(), 0);
        let id = read_u32(value.as_slice(), 4);
        DataPoint { id, meta }
    }
}

impl FromSpecImpl<[u8; 8]> for DataPoint {
    open spec fn obeys_from_spec() -> bool {
        true
    }

    closed spec fn from_spec(value: [u8; 8]) -> DataPoint {
        DataPoint {
            id: be_u32(value@[4], value@[5], value@[6], value@[7]) as u32,
            meta: be_u32(value@[0], value@[1], value@[2], value@[3]) as u32,
        }
    }
}

/// The point that `from` makes of eight bytes is the one that they spell.
pub proof fn lemma_from_bytes(value: [u8; 8])
    ensures
        <DataPoint as FromSpec<[u8; 8]>>::from_spec(value)@ == point_of(value@),
{
}

/// The `count` data points that begin at index `start` of `data`.
pub open spec fn points_at(data: Seq<u8>, start: int, count: nat) -> Seq<DataPointView> {
    Seq::new(count, |i: int| point_of(data.subrange(start + 8 * i, start + 8 * i + 8)))
}

/// The `cols` columns that begin at index `pos` of `data` and end where
/// `data` ends: each a count of two bytes, then that many data points.
pub open spec fn parse_columns(data: Seq<u8>, pos: int, cols: nat) -> Result<
    Seq<Seq<DataPointView>>,
    Fault,
>
    decreases cols,
{
    if cols == 0 {
        if pos == data.len() {
            Ok(Seq::empty())
        } else {
            Err(Fault::TrailingBytes)
        }
    } else if pos + 2 > data.len() {
        Err(Fault::TruncatedPrefix)
    } else {
        let count = be_u16(data[pos], data[pos + 1]);
        if pos + 2 + 8 * count > data.len() {
            Err(Fault::TruncatedRecords)
        } else {
            match parse_columns(data, pos + 2 + 8 * count, (cols - 1) as nat) {
                Ok(rest) => Ok(seq![points_at(data, pos + 2, count as nat)] + rest),
                Err(fault) => Err(fault),
            }
        }
    }
}

/// What the columns of a grid hold.
pub open spec fn column_models(cols: Seq<Vec<DataPoint>>) -> Seq<Seq<DataPointView>> {
    cols.map_values(|col: Vec<DataPoint>| col@.map_values(|point: DataPoint| point@))
}

spec fn following(
    front: Seq<Seq<DataPointView>>,
    back: Result<Seq<Seq<DataPointView>>, Fault>,
) -> Result<Seq<Seq<DataPointView>>, Fault> {
    match back {
        Ok(cols) => Ok(front + cols),
        Err(fault) => Err(fault),
    }
}

/// Reads the `count` data points that begin at index `start` of `data`.
fn read_points(data: &[u8], start: usize, count: usize) -> (points: Vec<DataPoint>)
    requires
        start + 8 * count <= data@.len(),
    ensures
        points@.map_values(|point: DataPoint| point@) == points_at(
            data@,
            start as int,
            count as nat,
        ),
{
    let mut points: Vec<DataPoint> = Vec::new();
    let mut i: usize = 0;
    let len = data.len();
    while i < count
        invariant
            i <= count,
            len == data@.len(),
            start + 8 * count <= data@.len(),
            points@.len() == i,
            forall|k: int|
                0 <= k < i ==> (#[trigger] points@[k])@ == point_of(
                    data@.subrange(start + 8 * k, start + 8 * k + 8),
                ),
        decreases count - i,
    {
        let at = start + 8 * i;
        let point = DataPoint { id: read_u32(data, at + 4), meta: read_u32(data, at) };
        proof {
            let bytes = data@.subrange(at as int, at + 8);
            assert(bytes[0] == data@[at as int] && bytes[1] == data@[at + 1] && bytes[2] == data@[at
                + 2] && bytes[3] == data@[at + 3] && bytes[4] == data@[at + 4] && bytes[5]
                == data@[at + 5] && bytes[6] == data@[at + 6] && bytes[7] == data@[at + 7]);
            lemma_bytes_word(bytes[0], bytes[1], bytes[2], bytes[3]);
            lemma_bytes_word(bytes[4], bytes[5], bytes[6], bytes[7]);
            assert(point@ == point_of(bytes));
        }
        points.push(point);
        i = i + 1;
    }
    proof {
        assert(points@.map_values(|point: DataPoint| point@) =~= points_at(
            data@,
            start as int,
            count as nat,
        ));
    }
    points
}

/// Reads the grid of columns that `data` holds.
pub fn read_columns(data: &[u8]) -> (r: Result<Columns<Vec<DataPoint>>, Fault>)
    ensures
        match r {
            Ok(grid) => parse_columns(data@, 0, LEN as nat) == Ok::<Seq<Seq<DataPointView>>, Fault>(
                column_models(grid@),
            ),
            Err(fault) => parse_columns(data@, 0, LEN as nat) == Err::<
                Seq<Seq<DataPointView>>,
                Fault,
            >(fault),
        },
{
    let ghost whole = parse_columns(data@, 0, LEN as nat);
    let mut cols: Vec<Vec<DataPoint>> = Vec::new();
    let mut pos: usize = 0;
    proof {
        assert(column_models(cols@) =~= Seq::<Seq<DataPointView>>::empty());
        if whole is Ok {
            assert(column_models(cols@) + whole->Ok_0 =~= whole->Ok_0);
        }
    }
    while cols.len() < LEN
        invariant
            cols@.len() <= LEN,
            pos <= data@.len(),
            whole == parse_columns(data@, 0, LEN as nat),
            whole == following(
                column_models(cols@),
                parse_columns(data@, pos as int, (LEN - cols@.len()) as nat),
            ),
        decreases LEN - cols@.len(),
    {
        if data.len() - pos < 2 {
            return Err(Fault::TruncatedPrefix);
        }
        let count = read_u16(data, pos) as usize;
        if (data.len() - pos - 2) / 8 < count {
            return Err(Fault::TruncatedRecords);
        }
        let points = read_points(data, pos + 2, count);
        let next = pos + 2 + 8 * count;
        proof {
            let before = column_models(cols@);
            let column = points@.map_values(|point: DataPoint| point@);
            let after = column_models(cols@.push(points));
            assert(after =~= before.push(column));
            let rest = parse_columns(data@, next as int, (LEN - cols@.len() - 1) as nat);
            if rest is Ok {
                assert(before + (seq![column] + rest->Ok_0) =~= after + rest->Ok_0);
            }
        }
        cols.push(points);
        pos = next;
    }
    if pos != data.len() {
        return Err(Fault::TrailingBytes);
    }
    proof {
        assert(column_models(cols@) + Seq::<Seq<DataPointView>>::empty() =~= column_models(cols@));
    }
    match Columns::try_from(cols) {
        Ok(grid) => Ok(grid),
        Err(_) => Err(Fault::MissingValues),
    }
}

impl Payload for Columns<Vec<DataPoint>> {
    type Model = Seq<Seq<DataPointView>>;

    type Context = ();

    open spec fn model(&self) -> Seq<Seq<DataPointView>> {
        column_models(self@)
    }

    open spec fn parse(bytes: Seq<u8>) -> Result<Seq<Seq<DataPointView>>, Fault> {
        parse_columns(bytes, 0, LEN as nat)
    }

    open spec fn carried(bytes: Seq<u8>, before: (), after: ()) -> bool {
        true
    }

    fn decode(bytes: &[u8], context: &mut ()) -> (r: Result<Columns<Vec<DataPoint>>, Fault>) {
        read_columns(bytes)
    }
}

} // verus!
