//! A row of the table of sections with its scalars checked and its
//! payloads owned, undecoded.
use crate::detail_level::{DetailLevel, MAX_ORDINAL};
use crate::error::Error;
use crate::repo::Row;
use crate::section_pos::{in_range, SectionPos, SectionPosView};
use vstd::prelude::*;

verus! {

/// The grid coordinates of a section.
#[derive(Debug, Clone, Copy, PartialEq, Eq, PartialOrd, Ord, Hash, Structural)]
pub struct Pos {
    pub x: i32,
    pub z: i32,
}

/// A section as the store holds it.
#[derive(Debug)]
pub struct FullDataSourceV2DTO {
    pub detail_level: DetailLevel,
    pub pos: Pos,
    min_y: i32,
    checksum: i32,
    data: Vec<u8>,
    column_gen_step: Vec<u8>,
    world_compression_mode: Vec<u8>,
    mapping: Vec<u8>,
    format_version: u8,
    compression_mode: u8,
    apply_to_parent: Option<bool>,
    apply_to_children: Option<bool>,
    last_modified: i64,
    created: i64,
}

/// What a stored section holds.
pub struct FullDataSourceV2DTOView {
    pub detail_level: DetailLevel,
    pub pos: Pos,
    pub min_y: i32,
    pub checksum: i32,
    pub data: Seq<u8>,
    pub column_gen_step: Seq<u8>,
    pub world_compression_mode: Seq<u8>,
    pub mapping: Seq<u8>,
    pub format_version: u8,
    pub compression_mode: u8,
    pub apply_to_parent: Option<bool>,
    pub apply_to_children: Option<bool>,
    pub last_modified: i64,
    pub created: i64,
}

impl View for FullDataSourceV2DTO {
    type V = FullDataSourceV2DTOView;

    closed spec fn view(&self) -> FullDataSourceV2DTOView {
        FullDataSourceV2DTOView {
            detail_level: self.detail_level,
            pos: self.pos,
            min_y: self.min_y,
            checksum: self.checksum,
            data: self.data@,
            column_gen_step: self.column_gen_step@,
            world_compression_mode: self.world_compression_mode@,
            mapping: self.mapping@,
            format_version: self.format_version,
            compression_mode: self.compression_mode,
            apply_to_parent: self.apply_to_parent,
            apply_to_children: self.apply_to_children,
            last_modified: self.last_modified,
            created: self.created,
        }
    }
}

/// What `row` holds, its detail level counted from the finest level of
/// all.
pub open spec fn stored(row: Row<'_>) -> FullDataSourceV2DTOView {
    FullDataSourceV2DTOView {
        detail_level: DetailLevel::of_ordinal((row.detail_level + 6) as u8),
        pos: Pos { x: row.pos_x, z: row.pos_z },
        min_y: row.min_y,
        checksum: row.data_checksum,
        data: row.data@,
        column_gen_step: row.column_generation_step@,
        world_compression_mode: row.column_world_compression_mode@,
        mapping: row.mapping@,
        format_version: row.data_format_version,
        compression_mode: row.compression_mode,
        apply_to_parent: row.apply_to_parent,
        apply_to_children: row.apply_to_children,
        last_modified: row.last_modified_unix_date_time,
        created: row.created_unix_date_time,
    }
}

impl FullDataSourceV2DTO {
    /// The section that `row` holds, if its detail level is on the scale.
    pub fn try_from(row: &Row<'_>) -> (r: Result<FullDataSourceV2DTO, Error>)
        ensures
            match r {
                Ok(dto) => row.detail_level + 6 <= MAX_ORDINAL && dto@ == stored(*row),
                Err(error) => row.detail_level + 6 > MAX_ORDINAL && error == Error::SchemaMismatch,
            },
    {
        let offset = match DetailLevel::try_new(row.detail_level) {
            Ok(level) => level,
            Err(_) => {
                return Err(Error::SchemaMismatch);
            },
        };
        let detail_level = match offset.checked_add(SectionPos::SECTION_MINIMUM_DETAIL_LEVEL) {
            Some(level) => level,
            None => {
                return Err(Error::SchemaMismatch);
            },
        };
        proof {
            crate::detail_level::lemma_of_ordinal(detail_level);
        }
        Ok(
            FullDataSourceV2DTO {
                detail_level,
                pos: Pos { x: row.pos_x, z: row.pos_z },
                min_y: row.min_y,
                checksum: row.data_checksum,
                data: vstd::slice::slice_to_vec(row.data),
                column_gen_step: vstd::slice::slice_to_vec(row.column_generation_step),
                world_compression_mode: vstd::slice::slice_to_vec(
                    row.column_world_compression_mode,
                ),
                mapping: vstd::slice::slice_to_vec(row.mapping),
                format_version: row.data_format_version,
                compression_mode: row.compression_mode,
                apply_to_parent: row.apply_to_parent,
                apply_to_children: row.apply_to_children,
                last_modified: row.last_modified_unix_date_time,
                created: row.created_unix_date_time,
            },
        )
    }

    /// The width, in blocks, of what one cell of the section covers.
    pub fn block_width(&self) -> (width: i32)
        ensures
            width == self@.detail_level.width(),
    {
        self.detail_level.block_width()
    }

    /// The key of the section.
    pub fn section_pos(&self) -> (key: SectionPos)
        requires
            in_range(self@.pos.x),
            in_range(self@.pos.z),
        ensures
            key@ == (SectionPosView {
                detail_level: self@.detail_level,
                x: self@.pos.x as int,
                z: self@.pos.z as int,
            }),
    {
        SectionPos::new(self.detail_level, self.pos.x, self.pos.z)
    }
}

} // verus!
