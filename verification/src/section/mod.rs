//! Sections: one snapshot of the terrain for one key, its four payloads
//! decoded when they are asked for.
use crate::compression::{
    opened, same_content, uncached, unopened, Compressed, Compression,
};
use crate::detail_level::{DetailLevel, MAX_ORDINAL};
use crate::error::Error;
use crate::repo::{ordered, All, Ordered, Param, Query, Repo, Row};
use crate::section_pos::{in_range, SectionPos, SectionPosView};
use std::borrow::Cow;
use vstd::prelude::*;

pub mod columns;
pub mod compression;
pub mod data;
pub mod entry;
pub mod intern;
pub mod mapping;
pub mod surface;
pub mod world_gen_step;

use columns::Columns;
use compression::WorldCompression;
use data::DataPoint;
use intern::InternPool;
use mapping::{pool_grew, pool_with, read_table, Mapping};
use world_gen_step::WorldGenStep;

verus! {

/// The payloads of a section, in the order in which they are decoded.
#[derive(Debug, Clone, Copy, PartialEq, Eq, Structural)]
pub enum Field {
    /// The grid of data points.
    Data,
    /// The grid of generation steps.
    WorldGenStep,
    /// The grid of merge modes.
    WorldCompression,
    /// The mapping.
    Mapping,
}

/// The error of one payload of a section.
#[derive(Debug, Clone, Copy, PartialEq, Eq, Structural)]
pub struct Failure {
    pub field: Field,
    pub error: Error,
}

/// The grid of data points of a section, as it is held.
pub type DataField<'a> = Compressed<'a, Box<Columns<Vec<DataPoint>>>, Compression>;

/// The grid of generation steps of a section, as it is held.
pub type StepField<'a> = Compressed<'a, Columns<WorldGenStep>, Compression>;

/// The grid of merge modes of a section, as it is held.
pub type ModeField<'a> = Compressed<'a, Columns<WorldCompression>, Compression>;

/// The mapping of a section, as it is held.
pub type MappingField<'a> = Compressed<'a, Mapping, Compression>;

/// One snapshot of the terrain.
#[derive(Debug)]
pub struct Section<'a> {
    /// The key of the section.
    pub pos: SectionPos,
    /// The height of the section's floor.
    pub min_y: i32,
    checksum: i32,
    data: DataField<'a>,
    world_gen_step: StepField<'a>,
    world_compression: ModeField<'a>,
    mapping: MappingField<'a>,
    format_version: u8,
    compression: Compression,
    apply_to_parent: Option<bool>,
    apply_to_children: Option<bool>,
    last_modified: i64,
    created: i64,
}

/// What is wrong with the scalars of `row`, if anything is: the first of
/// a detail level beyond the scale, a coordinate that no key holds, and a
/// compression tag that names no codec.
pub open spec fn row_error(row: Row<'_>) -> Option<Error> {
    if row.detail_level + 6 > MAX_ORDINAL {
        Some(Error::SchemaMismatch)
    } else if !in_range(row.pos_x) || !in_range(row.pos_z) {
        Some(Error::SchemaMismatch)
    } else if row.compression_mode > 3 {
        Some(Error::UnsupportedCodec(row.compression_mode))
    } else {
        None
    }
}

/// What a section holds.
pub struct SectionView<'a> {
    pub pos: SectionPosView,
    pub min_y: i32,
    pub checksum: i32,
    pub data: DataField<'a>,
    pub world_gen_step: StepField<'a>,
    pub world_compression: ModeField<'a>,
    pub mapping: MappingField<'a>,
    pub format_version: u8,
    pub compression: Compression,
    pub apply_to_parent: Option<bool>,
    pub apply_to_children: Option<bool>,
    pub last_modified: i64,
    pub created: i64,
}

impl<'a> View for Section<'a> {
    type V = SectionView<'a>;

    closed spec fn view(&self) -> SectionView<'a> {
        SectionView {
            pos: self.pos@,
            min_y: self.min_y,
            checksum: self.checksum,
            data: self.data,
            world_gen_step: self.world_gen_step,
            world_compression: self.world_compression,
            mapping: self.mapping,
            format_version: self.format_version,
            compression: self.compression,
            apply_to_parent: self.apply_to_parent,
            apply_to_children: self.apply_to_children,
            last_modified: self.last_modified,
            created: self.created,
        }
    }
}

impl<'a> SectionView<'a> {
    /// Whether this is what `row` holds, each payload still compressed and
    /// the row's codec beside it.
    pub open spec fn fresh_from(self, row: Row<'a>) -> bool {
        &&& self.pos == (SectionPosView {
            detail_level: DetailLevel::of_ordinal((row.detail_level + 6) as u8),
            x: row.pos_x as int,
            z: row.pos_z as int,
        })
        &&& self.min_y == row.min_y
        &&& self.checksum == row.data_checksum
        &&& self.format_version == row.data_format_version
        &&& self.compression.tag() == row.compression_mode
        &&& self.apply_to_parent == row.apply_to_parent
        &&& self.apply_to_children == row.apply_to_children
        &&& self.last_modified == row.last_modified_unix_date_time
        &&& self.created == row.created_unix_date_time
        &&& self.data == (DataField::Compressed {
            compressor: self.compression,
            buf: Cow::Borrowed(row.data),
        })
        &&& self.world_gen_step == (StepField::Compressed {
            compressor: self.compression,
            buf: Cow::Borrowed(row.column_generation_step),
        })
        &&& self.world_compression == (ModeField::Compressed {
            compressor: self.compression,
            buf: Cow::Borrowed(row.column_world_compression_mode),
        })
        &&& self.mapping == (MappingField::Compressed {
            compressor: self.compression,
            buf: Cow::Borrowed(row.mapping),
        })
    }
}

impl<'a> Section<'a> {
    /// The number of cells along each side of a section.
    pub const WIDTH: usize = 64;

    /// The section that `row` holds, its payloads still compressed.
    pub fn from_row(row: &Row<'a>) -> (r: Result<Section<'a>, Error>)
        ensures
            match r {
                Ok(section) => row_error(*row) is None && section@.fresh_from(*row),
                Err(error) => row_error(*row) == Some(error),
            },
    {
        let offset = match DetailLevel::try_new(row.detail_level) {
            Ok(level) => level,
            Err(_) => {
                return Err(Error::SchemaMismatch);
            },
        };
        let detail_level = match offset.checked_add(SectionPos::SECTION_MINIMUM_DETAIL_LEVEL) {
            Some(level) => level,
            None => {
                return Err(Error::SchemaMismatch);
            },
        };
        let pos = match SectionPos::try_new(detail_level, row.pos_x, row.pos_z) {
            Some(pos) => pos,
            None => {
                return Err(Error::SchemaMismatch);
            },
        };
        let compression = match Compression::from_tag(row.compression_mode) {
            Ok(compression) => compression,
            Err(error) => {
                return Err(error);
            },
        };
        proof {
            crate::detail_level::lemma_of_ordinal(detail_level);
        }
        Ok(
            Section {
                pos,
                min_y: row.min_y,
                checksum: row.data_checksum,
                data: Compressed::Compressed { compressor: compression, buf: Cow::Borrowed(row.data) },
                world_gen_step: Compressed::Compressed {
                    compressor: compression,
                    buf: Cow::Borrowed(row.column_generation_step),
                },
                world_compression: Compressed::Compressed {
                    compressor: compression,
                    buf: Cow::Borrowed(row.column_world_compression_mode),
                },
                mapping: Compressed::Compressed {
                    compressor: compression,
                    buf: Cow::Borrowed(row.mapping),
                },
                format_version: row.data_format_version,
                compression,
                apply_to_parent: row.apply_to_parent,
                apply_to_children: row.apply_to_children,
                last_modified: row.last_modified_unix_date_time,
                created: row.created_unix_date_time,
            },
        )
    }
}

impl<'a> SectionView<'a> {
    /// Whether the scalars are those of `other`.
    pub open spec fn same_scalars(self, other: SectionView<'_>) -> bool {
        &&& self.pos == other.pos
        &&& self.min_y == other.min_y
        &&& self.checksum == other.checksum
        &&& self.format_version == other.format_version
        &&& self.compression == other.compression
        &&& self.apply_to_parent == other.apply_to_parent
        &&& self.apply_to_children == other.apply_to_children
        &&& self.last_modified == other.last_modified
        &&& self.created == other.created
    }

    /// Whether `after` is this section after its payloads were decoded one
    /// after the other, with `outcome`: all are decoded, or those before
    /// the one that failed are, and it and those behind it are as they were.
    pub open spec fn decoded_as(self, after: SectionView<'a>, outcome: Result<(), Failure>) -> bool {
        &&& after.same_scalars(self)
        &&& match outcome {
            Ok(_) => {
                &&& opened(self.data, after.data)
                &&& opened(self.world_gen_step, after.world_gen_step)
                &&& opened(self.world_compression, after.world_compression)
                &&& opened(self.mapping, after.mapping)
            },
            Err(failure) => match failure.field {
                Field::Data => {
                    &&& unopened(self.data, after.data, failure.error)
                    &&& after.world_gen_step == self.world_gen_step
                    &&& after.world_compression == self.world_compression
                    &&& after.mapping == self.mapping
                },
                Field::WorldGenStep => {
                    &&& opened(self.data, after.data)
                    &&& unopened(
                        self.world_gen_step,
                        after.world_gen_step,
                        failure.error,
                    )
                    &&& after.world_compression == self.world_compression
                    &&& after.mapping == self.mapping
                },
                Field::WorldCompression => {
                    &&& opened(self.data, after.data)
                    &&& opened(self.world_gen_step, after.world_gen_step)
                    &&& unopened(
                        self.world_compression,
                        after.world_compression,
                        failure.error,
                    )
                    &&& after.mapping == self.mapping
                },
                Field::Mapping => {
                    &&& opened(self.data, after.data)
                    &&& opened(self.world_gen_step, after.world_gen_step)
                    &&& opened(self.world_compression, after.world_compression)
                    &&& unopened(self.mapping, after.mapping, failure.error)
                },
            },
        }
    }

    /// Whether `after` is the pool `before` after the payloads of this
    /// section were decoded with `outcome`: where the mapping was reached
    /// and had to be read, the pool has taken up the long strings of the
    /// entries that were read; else it is as it was.
    pub open spec fn pooled_as(
        self,
        outcome: Result<(), Failure>,
        before: InternPool,
        after: InternPool,
    ) -> bool {
        let reached = outcome is Ok || outcome->Err_0.field == Field::Mapping;
        if reached && self.mapping.reading() is Some {
            pool_with(before, read_table(self.mapping.reading()->0).0, after)
        } else {
            after == before
        }
    }

    /// Whether all four payloads are held compressed.
    pub open spec fn persistable(self) -> bool {
        &&& self.data.raw() is Some
        &&& self.world_gen_step.raw() is Some
        &&& self.world_compression.raw() is Some
        &&& self.mapping.raw() is Some
    }

    /// Whether `row` holds what the section holds.
    pub open spec fn stored_as(self, row: Row<'_>) -> bool {
        &&& row.detail_level == (if self.pos.detail_level.ordinal() < 6 {
            0
        } else {
            self.pos.detail_level.ordinal() - 6
        })
        &&& row.pos_x == self.pos.x
        &&& row.pos_z == self.pos.z
        &&& row.min_y == self.min_y
        &&& row.data_checksum == self.checksum
        &&& Some(row.data@) == self.data.raw()
        &&& Some(row.column_generation_step@) == self.world_gen_step.raw()
        &&& Some(row.column_world_compression_mode@) == self.world_compression.raw()
        &&& Some(row.mapping@) == self.mapping.raw()
        &&& row.data_format_version == self.format_version
        &&& row.compression_mode == self.compression.tag()
        &&& row.apply_to_parent == self.apply_to_parent
        &&& row.apply_to_children == self.apply_to_children
        &&& row.last_modified_unix_date_time == self.last_modified
        &&& row.created_unix_date_time == self.created
    }
}

impl<'a> Section<'a> {
    /// The codec of the section's payloads.
    #[must_use]
    pub fn compression(&self) -> (codec: Compression)
        ensures
            codec == self@.compression,
    {
        self.compression
    }

    /// The grid of data points, if it is decoded.
    #[must_use]
    pub fn column_data(&self) -> (grid: Option<&Columns<Vec<DataPoint>>>)
        ensures
            match grid {
                Some(grid) => self@.data.decoded() matches Some(held) && *held == *grid,
                None => self@.data.decoded() is None,
            },
    {
        match self.data.as_ref() {
            Some(data) => Some(&**data),
            None => None,
        }
    }

    /// The grid of generation steps, if it is decoded.
    #[must_use]
    pub fn world_gen_steps(&self) -> (grid: Option<&Columns<WorldGenStep>>)
        ensures
            match grid {
                Some(grid) => self@.world_gen_step.decoded() == Some(*grid),
                None => self@.world_gen_step.decoded() is None,
            },
    {
        self.world_gen_step.as_ref()
    }

    /// The grid of merge modes, if it is decoded.
    #[must_use]
    pub fn world_compressions(&self) -> (grid: Option<&Columns<WorldCompression>>)
        ensures
            match grid {
                Some(grid) => self@.world_compression.decoded() == Some(*grid),
                None => self@.world_compression.decoded() is None,
            },
    {
        self.world_compression.as_ref()
    }

    /// The mapping, if it is decoded.
    #[must_use]
    pub fn mapping(&self) -> (mapping: Option<&Mapping>)
        ensures
            match mapping {
                Some(mapping) => self@.mapping.decoded() == Some(*mapping),
                None => self@.mapping.decoded() is None,
            },
    {
        self.mapping.as_ref()
    }

    /// The same section, its bytes no longer borrowed.
    #[must_use]
    pub fn into_owned(self) -> (owned: Section<'static>)
        ensures
            owned@.same_scalars(self@),
            same_content(owned@.data, self@.data),
            same_content(owned@.world_gen_step, self@.world_gen_step),
            same_content(owned@.world_compression, self@.world_compression),
            same_content(owned@.mapping, self@.mapping),
    {
        Section {
            pos: self.pos,
            min_y: self.min_y,
            checksum: self.checksum,
            data: self.data.into_owned(),
            world_gen_step: self.world_gen_step.into_owned(),
            world_compression: self.world_compression.into_owned(),
            mapping: self.mapping.into_owned(),
            format_version: self.format_version,
            compression: self.compression,
            apply_to_parent: self.apply_to_parent,
            apply_to_children: self.apply_to_children,
            last_modified: self.last_modified,
            created: self.created,
        }
    }

    /// Whether one of the payloads is held compressed.
    pub fn is_compressed(&self) -> (any: bool)
        ensures
            any == (self@.data.raw() is Some || self@.world_gen_step.raw() is Some
                || self@.world_compression.raw() is Some || self@.mapping.raw() is Some),
    {
        self.data.is_compressed() || self.world_gen_step.is_compressed()
            || self.world_compression.is_compressed() || self.mapping.is_compressed()
    }

    /// Whether all of the payloads are held decoded.
    pub fn is_decompressed(&self) -> (all: bool)
        ensures
            all == (self@.data.decoded() is Some && self@.world_gen_step.decoded() is Some
                && self@.world_compression.decoded() is Some && self@.mapping.decoded() is Some),
    {
        self.data.is_decompressed() && self.world_gen_step.is_decompressed()
            && self.world_compression.is_decompressed() && self.mapping.is_decompressed()
    }

    /// Decodes the payloads, one after the other, and stops at the first
    /// that fails. The strings of the mapping come from `pool`.
    pub fn decompress(&mut self, pool: &mut InternPool) -> (r: Result<(), Failure>)
        ensures
            old(self)@.decoded_as(final(self)@, r),
            old(self)@.pooled_as(r, *old(pool), *final(pool)),
            pool_grew(*old(pool), *final(pool)),
    {
        let mut unit = ();
        if let Err(error) = self.data.decompress(&mut unit) {
            return Err(Failure { field: Field::Data, error });
        }
        if let Err(error) = self.world_gen_step.decompress(&mut unit) {
            return Err(Failure { field: Field::WorldGenStep, error });
        }
        if let Err(error) = self.world_compression.decompress(&mut unit) {
            return Err(Failure { field: Field::WorldCompression, error });
        }
        if let Err(error) = self.mapping.decompress(pool) {
            return Err(Failure { field: Field::Mapping, error });
        }
        Ok(())
    }

    /// Lets go of the compressed bytes of each payload that is decoded.
    pub fn drop_caches(&mut self)
        ensures
            final(self)@.same_scalars(old(self)@),
            uncached(old(self)@.data, final(self)@.data),
            uncached(old(self)@.world_gen_step, final(self)@.world_gen_step),
            uncached(old(self)@.world_compression, final(self)@.world_compression),
            uncached(old(self)@.mapping, final(self)@.mapping),
    {
        self.data.drop_cache();
        self.world_gen_step.drop_cache();
        self.world_compression.drop_cache();
        self.mapping.drop_cache();
    }

    /// The width, in blocks, of what one cell of the section covers.
    #[must_use]
    pub fn block_width(&self) -> (width: i32)
        ensures
            width == self@.pos.detail_level.width(),
    {
        self.pos.detail_level().block_width()
    }

    /// The row that holds the section. Each payload has to be held
    /// compressed.
    pub fn bind_insert(&self) -> (r: Result<Row<'_>, Error>)
        ensures
            match r {
                Ok(row) => self@.persistable() && self@.stored_as(row),
                Err(error) => !self@.persistable() && error == Error::NeedsRecompression,
            },
    {
        let data = self.data.compressed_bytes()?;
        let column_generation_step = self.world_gen_step.compressed_bytes()?;
        let column_world_compression_mode = self.world_compression.compressed_bytes()?;
        let mapping = self.mapping.compressed_bytes()?;
        let level = self.pos.detail_level() - SectionPos::SECTION_MINIMUM_DETAIL_LEVEL;
        Ok(
            Row {
                detail_level: level.as_u8(),
                pos_x: self.pos.x(),
                pos_z: self.pos.z(),
                min_y: self.min_y,
                data_checksum: self.checksum,
                data,
                column_generation_step,
                column_world_compression_mode,
                mapping,
                data_format_version: self.format_version,
                compression_mode: self.compression.as_u8(),
                apply_to_parent: self.apply_to_parent,
                apply_to_children: self.apply_to_children,
                last_modified_unix_date_time: self.last_modified,
                created_unix_date_time: self.created,
            },
        )
    }
}

impl Repo for Section<'_> {
    const SELECTION: &'static str = "*";

    const INSERT: &'static str = "
            BY NAME (
                SELECT
                    ? AS DetailLevel,
                    ? AS PosX,
                    ? AS PosZ,
                    ? AS MinY,
                    ? AS DataChecksum,
                    ? AS Data,
                    ? AS ColumnGenerationStep,
                    ? AS ColumnWorldCompressionMode,
                    ? AS Mapping,
                    ? AS DataFormatVersion,
                    ? AS CompressionMode,
                    ? AS ApplyToParent,
                    ? AS LastModifiedUnixDateTime,
                    ? AS CreatedUnixDateTime,

                    -- ? AS ApplyToChildren,
            );
        ";

    const TABLE: &'static str = "FullData";

    type Element<'r> = Section<'r>;

    open spec fn refusal(row: Row<'_>) -> Option<Error> {
        row_error(row)
    }

    open spec fn read(row: Row<'_>, element: Section<'_>) -> bool {
        element@.fresh_from(row)
    }

    fn from_row<'r>(row: &Row<'r>) -> (r: Result<Section<'r>, Error>) {
        Section::from_row(row)
    }

    open spec fn written(element: Section<'_>, outcome: Result<Row<'_>, Error>) -> bool {
        match outcome {
            Ok(row) => element@.persistable() && element@.stored_as(row),
            Err(error) => !element@.persistable() && error == Error::NeedsRecompression,
        }
    }

    fn bind_insert<'r>(element: &'r Section<'_>) -> (r: Result<Row<'r>, Error>) {
        element.bind_insert()
    }
}

/// The selection of the sections of one detail level.
#[derive(Debug, Clone, Copy)]
pub struct ByDetailLevel;

impl Query<DetailLevel> for ByDetailLevel {
    open spec fn condition(&self) -> Seq<char> {
        "DetailLevel = ?"@
    }

    open spec fn order(&self) -> Option<Seq<char>> {
        None
    }

    open spec fn bound(&self, params: DetailLevel) -> Seq<Param> {
        seq![Param::Int(params.ordinal() as i32)]
    }

    fn where_clause(&self) -> (clause: &str) {
        "DetailLevel = ?"
    }

    fn order_by(&self) -> (order: Option<&str>) {
        None
    }

    fn bind_params(&self, params: DetailLevel) -> (values: Vec<Param>) {
        let mut values: Vec<Param> = Vec::new();
        values.push(Param::Int(params.as_u8() as i32));
        values
    }
}

impl Section<'_> {
    /// The selection of all sections, those farthest from the origin
    /// first.
    pub fn all_query() -> (query: Ordered<(), All>)
        ensures
            query.condition() == "1"@,
            query.order() == Some(
                "(cast(PosX as INTEGER) ** 2 + cast(PosZ as INTEGER) ** 2) DESC"@,
            ),
    {
        ordered(All, "(cast(PosX as INTEGER) ** 2 + cast(PosZ as INTEGER) ** 2) DESC")
    }

    /// The selection of the sections of the level `detail_level`, and the
    /// level as the store counts it: from the finest level at which
    /// sections are kept.
    pub fn detail_level_query(detail_level: DetailLevel) -> (r: (ByDetailLevel, DetailLevel))
        ensures
            r.1.ordinal() == (if detail_level.ordinal() < 6 {
                0
            } else {
                detail_level.ordinal() - 6
            }),
    {
        (ByDetailLevel, detail_level - SectionPos::SECTION_MINIMUM_DETAIL_LEVEL)
    }
}

/// Decodes each of `sections` in turn, going on behind those that fail,
/// and gives the outcome of each. The pool goes from each section to the
/// next.
pub fn decompress_all<'a>(sections: &mut Vec<Section<'a>>, pool: &mut InternPool) -> (outcomes: Vec<
    Result<(), Failure>,
>)
    ensures
        pool_grew(*old(pool), *final(pool)),
        final(sections)@.len() == old(sections)@.len(),
        outcomes@.len() == old(sections)@.len(),
        forall|i: int|
            0 <= i < outcomes@.len() ==> (#[trigger] old(sections)@[i])@.decoded_as(
                final(sections)@[i]@,
                outcomes@[i],
            ),
        exists|pools: Seq<InternPool>|
            {
                &&& pools.len() == outcomes@.len() + 1
                &&& pools[0] == *old(pool)
                &&& pools[outcomes@.len() as int] == *final(pool)
                &&& forall|i: int|
                    0 <= i < outcomes@.len() ==> (#[trigger] old(sections)@[i])@.pooled_as(
                        outcomes@[i],
                        pools[i],
                        pools[i + 1],
                    )
            },
{
    let mut outcomes: Vec<Result<(), Failure>> = Vec::new();
    let mut i: usize = 0;
    let ghost mut pools: Seq<InternPool> = seq![*pool];
    while i < sections.len()
        invariant
            i <= sections@.len(),
            sections@.len() == old(sections)@.len(),
            outcomes@.len() == i,
            pool_grew(*old(pool), *pool),
            forall|k: int|
                0 <= k < i ==> (#[trigger] old(sections)@[k])@.decoded_as(
                    sections@[k]@,
                    outcomes@[k],
                ),
            forall|k: int| i <= k < sections@.len() ==> sections@[k] == old(sections)@[k],
            pools.len() == i + 1,
            pools[0] == *old(pool),
            pools[i as int] == *pool,
            forall|k: int|
                0 <= k < i ==> (#[trigger] old(sections)@[k])@.pooled_as(
                    outcomes@[k],
                    pools[k],
                    pools[k + 1],
                ),
        decreases sections@.len() - i,
    {
        let outcome = sections[i].decompress(pool);
        outcomes.push(outcome);
        proof {
            pools = pools.push(*pool);
        }
        i = i + 1;
    }
    outcomes
}

} // verus!
