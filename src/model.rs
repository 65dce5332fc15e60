//! The decoded model of a metalib: its header, constants, constant groups and
//! struct/union definitions with their fields.
use crate::error::MetalibError;
use crate::types::MetaPrimativeType;
use vstd::prelude::*;

verus! {

/// The universal "absent" value of offsets and indices.
pub const INVALID_METALIB_VALUE: i32 = -1;

/// The serialized size of the header, in bytes.
pub const METALIB_HEADER_SIZE: u32 = 0x114;

/// Definition flag: the definition carries an id.
pub const META_FLAG_HAS_ID: u32 = 0x0002;

/// Definition flag: entry names need a prefix to be unique.
pub const META_FLAG_NEED_PREFIX_FOR_UNIQUENAME: u32 = 0x0040;

/// Field flag: a pointer ("*") type.
pub const ENTRY_FLAG_POINT_TYPE: u16 = 0x0002;

/// Field flag: a reference ("@") type.
pub const ENTRY_FLAG_REFER_TYPE: u16 = 0x0004;

/// Field flag: the field has "minid" and "maxid" bounds.
pub const ENTRY_FLAG_HAS_MAXMIN_ID: u16 = 0x0010;

/// Field database flag: unique.
pub const DB_FLAG_UNIQUE: u8 = 0x01;

/// Field database flag: not null.
pub const DB_FLAG_NOT_NULL: u8 = 0x02;

/// Field database flag: extend to table.
pub const DB_FLAG_EXTEND_TO_TABLE: u8 = 0x04;

/// Field database flag: auto increment.
pub const DB_FLAG_AUTO_INCREMENT: u8 = 0x20;

/// The fixed-size header in front of the body.
#[derive(Clone, Debug)]
pub struct MetalibHeader {
    pub magic: u16,
    pub build: u16,
    pub platform_arch: u32,
    /// Size of the whole metalib in bytes, header included.
    pub size: u32,
    pub field_c: u32,
    pub field_10: u32,
    pub field_14: u32,
    pub field_18: u32,
    pub id: i32,
    pub xml_tag_set_ver: u32,
    pub field_24: u32,
    pub max_meta_num: i32,
    /// Number of struct/union definitions.
    pub cur_meta_num: i32,
    pub max_macro_num: i32,
    /// Number of constants.
    pub cur_macro_num: i32,
    pub max_macros_group_num: i32,
    /// Number of constant groups.
    pub cur_macros_group_num: i32,
    pub field_40: u32,
    pub field_44: u32,
    pub version: u32,
    /// Body offset of the constant table.
    pub ptr_macro: u32,
    /// Body offset of the id index table.
    pub ptr_id: u32,
    /// Body offset of the name index table.
    pub ptr_name: u32,
    /// Body offset of the definition map table.
    pub ptr_map: u32,
    /// Body offset of the definition table.
    pub ptr_meta: u32,
    pub ptr_last_meta: u32,
    pub free_str_buf_size: i32,
    pub ptr_str_buf: u32,
    pub ptr_free_str_buf: u32,
    pub ptr_macro_group_map: u32,
    /// Body offset of the constant group table.
    pub ptr_macros_group: u32,
    pub field_78: u32,
    pub field_7c: i32,
    pub field_80: i32,
    pub field_84: u32,
    pub field_88: u32,
    pub field_8c: i32,
    pub field_90: i32,
    /// Name of the metalib (a 128-byte buffer).
    pub name: String,
}

/// A size descriptor: where a size is found, or which type holds it.
#[derive(Clone, Copy, Debug)]
pub struct TDRSizeInfo {
    pub _offset: u64,
    pub n_off: i32,
    pub h_off: i32,
    pub unit_size: i32,
    pub idx_size_type: i32,
}

/// A version indicator: where a version is found.
#[derive(Clone, Copy, Debug)]
pub struct TDRRedirector {
    pub _offset: u64,
    pub n_off: i32,
    pub h_off: i32,
    pub unit_size: i32,
}

/// A back-reference to a sibling field by its host offset.
#[derive(Clone, Copy, Debug)]
pub struct TDRSelector {
    pub _offset: u64,
    pub unit_size: i32,
    pub h_off: i32,
    pub ptr_entry: i32,
}

#[derive(Clone, Copy, Debug)]
pub struct TDRSortKeyInfo {
    pub _offset: u64,
    pub idx_sort_entry: i32,
    pub sort_key_offset: i32,
    pub ptr_sort_key_meta: i32,
}

#[derive(Clone, Copy, Debug)]
pub struct TDRDBKeyInfo {
    pub _offset: u64,
    pub h_off: i32,
    pub ptr_entry: i32,
}

#[derive(Clone, Copy, Debug)]
pub struct TDRIdEntry {
    pub _offset: u64,
    pub id: i32,
    /// Offset of a definition.
    pub idx: i32,
}

#[derive(Clone, Copy, Debug)]
pub struct TDRNameEntry {
    pub _offset: u64,
    /// Offset of a GBK text.
    pub ptr: i32,
    /// Offset of a definition.
    pub idx: i32,
}

#[derive(Clone, Copy, Debug)]
pub struct TDRMapEntry {
    pub _offset: u64,
    /// Offset of a definition.
    pub ptr: i32,
    pub size: i32,
}

/// A named integer constant; its body offset is its identity.
#[derive(Clone, Debug)]
pub struct TDRMacro {
    pub _offset: u64,
    pub name: String,
    pub value: i32,
    pub desc: String,
    pub unk: i32,
}

/// The value found at a field's default-value offset, as its type reads it.
/// Floating-point values are kept as their bits; text is in the field's
/// `default_value_string`.
#[derive(Clone, Copy, Debug, PartialEq, Eq, Structural)]
pub enum DefaultValue {
    Absent,
    Signed(i64),
    Unsigned(u64),
    Float(u32),
    Double(u64),
    Text,
}

/// One field of a struct/union definition.
#[derive(Clone, Debug)]
pub struct TDRMetaEntry {
    pub _offset: u64,
    pub id: i32,
    pub version: i32,
    pub type_: MetaPrimativeType,
    pub name: String,
    pub h_real_size: i32,
    pub n_real_size: i32,
    pub h_unit_size: i32,
    pub n_unit_size: i32,
    pub custom_h_unit_size: i32,
    pub count: i32,
    pub n_off: i32,
    pub h_off: i32,
    pub idx_id: i32,
    pub idx_version: i32,
    pub idx_count: i32,
    /// Row of the type catalogue.
    pub idx_type: i32,
    pub idx_custom_h_unit_size: i32,
    pub flag: u16,
    pub db_flag: u8,
    pub order: u8,
    pub size_info: TDRSizeInfo,
    pub referer: TDRSelector,
    pub selector: TDRSelector,
    pub io: i32,
    pub idx_io: i32,
    /// Offset of the definition of a struct/union-typed field.
    pub ptr_meta: i32,
    pub max_id: i32,
    pub min_id: i32,
    pub max_id_idx: i32,
    pub min_id_idx: i32,
    pub default_val_len: i32,
    pub desc: String,
    pub chinese_name: String,
    pub ptr_default_val: i32,
    pub ptr_macros_group: i32,
    pub ptr_custom_attr: i32,
    pub off_to_meta: i32,
    pub field_a8: i32,
    pub field_ac: i32,
    pub field_b0: i32,
    /// The value at `ptr_default_val`.
    pub default_value: DefaultValue,
    /// The text of the value at `ptr_default_val`. It stays empty for
    /// `Float` and `Double` defaults until the caller renders their bits.
    pub default_value_string: String,
}

/// A struct or union definition; its body offset is its identity.
#[derive(Clone, Debug)]
pub struct TDRMeta {
    pub _offset: u64,
    pub flags: u32,
    pub id: i32,
    pub base_version: i32,
    pub cur_version: i32,
    pub type_: MetaPrimativeType,
    pub mem_size: i32,
    pub n_unit_size: i32,
    pub h_unit_size: i32,
    pub custom_h_unit_size: i32,
    pub idx_custom_h_unit_size: i32,
    pub uncertain_max_sub_id: i32,
    pub entries_num: i32,
    pub unk_table_count: i32,
    pub unk_table_ptr: i32,
    pub unk_table_unk: i32,
    pub ptr_meta: i32,
    pub idx: i32,
    pub idx_id: i32,
    pub idx_type: i32,
    pub idx_version: i32,
    pub custom_align: i32,
    pub valid_align: i32,
    pub uncertain_version_indicator_min_ver: i32,
    pub size_type: TDRSizeInfo,
    pub version_indicator: TDRRedirector,
    pub sort_key: TDRSortKeyInfo,
    pub name: String,
    pub desc: String,
    pub chinese_name: String,
    pub split_table_factor: i32,
    pub split_table_rule_id: i16,
    pub primary_key_member_num: i16,
    pub idx_split_table_factor: i32,
    pub split_table_key: TDRDBKeyInfo,
    pub ptr_primary_key_base: i32,
    pub ptr_dependon_struct: i32,
    pub field_ac: i32,
    pub field_b0: i32,
    pub field_b4: i32,
    /// The fields, in declaration order.
    pub entries: Vec<TDRMetaEntry>,
}

/// A named group of constants; its body offset is its identity.
#[derive(Clone, Debug)]
pub struct TDRMacroGroup {
    pub _offset: u64,
    pub cur_macro_count: i32,
    pub max_macro_count: i32,
    pub desc: String,
    pub _ptr_name_idx_map: i32,
    pub _ptr_value_idx_map: i32,
    /// Name of the group (a 128-byte buffer).
    pub name: String,
    /// Indices into the constant table, by name.
    pub name_idx_map: Vec<i32>,
    /// Indices into the constant table, by value; these give the members.
    pub value_idx_map: Vec<i32>,
}

/// A whole decoded metalib.
#[derive(Clone, Debug)]
pub struct Metalib {
    pub _offset: u64,
    pub header: MetalibHeader,
    pub macros: Vec<TDRMacro>,
    pub ids: Vec<TDRIdEntry>,
    pub names: Vec<TDRNameEntry>,
    pub meta_map: Vec<TDRMapEntry>,
    pub metas: Vec<TDRMeta>,
    pub macrogroups: Vec<TDRMacroGroup>,
}

/// The index of the first definition in `metas[i..]` whose id is `id`, or
/// `metas.len()`.
pub open spec fn first_meta_with_id(metas: Seq<TDRMeta>, id: i32, i: int) -> int
    decreases metas.len() - i,
{
    if i < 0 || i >= metas.len() {
        metas.len() as int
    } else if metas[i].id == id {
        i
    } else {
        first_meta_with_id(metas, id, i + 1)
    }
}

/// The index of the first definition in `metas[i..]` at body offset `off`,
/// or `metas.len()`.
pub open spec fn first_meta_at(metas: Seq<TDRMeta>, off: u64, i: int) -> int
    decreases metas.len() - i,
{
    if i < 0 || i >= metas.len() {
        metas.len() as int
    } else if metas[i]._offset == off {
        i
    } else {
        first_meta_at(metas, off, i + 1)
    }
}

/// The index of the first group in `groups[i..]` at body offset `off`, or
/// `groups.len()`.
pub open spec fn first_group_at(groups: Seq<TDRMacroGroup>, off: u64, i: int) -> int
    decreases groups.len() - i,
{
    if i < 0 || i >= groups.len() {
        groups.len() as int
    } else if groups[i]._offset == off {
        i
    } else {
        first_group_at(groups, off, i + 1)
    }
}

/// The definition that a reference by id designates: the first with that id;
/// -1 designates none.
pub open spec fn meta_index_by_id(lib: Metalib, id: i32) -> Option<int> {
    let k = first_meta_with_id(lib.metas@, id, 0);
    if id != INVALID_METALIB_VALUE && k < lib.metas@.len() {
        Some(k)
    } else {
        None
    }
}

/// The definition that a reference by body offset designates; -1 designates none.
pub open spec fn meta_index_at(lib: Metalib, off: i32) -> Option<int> {
    let k = first_meta_at(lib.metas@, off as u64, 0);
    if off != INVALID_METALIB_VALUE && k < lib.metas@.len() {
        Some(k)
    } else {
        None
    }
}

/// The group that a reference by body offset designates; -1 designates none.
pub open spec fn group_index_at(lib: Metalib, off: i32) -> Option<int> {
    let k = first_group_at(lib.macrogroups@, off as u64, 0);
    if off != INVALID_METALIB_VALUE && k < lib.macrogroups@.len() {
        Some(k)
    } else {
        None
    }
}

/// Whether a member index of `vals[j..]` designates the constant at body
/// offset `off`; an index outside the constant table is an error.
pub open spec fn group_holds(macros: Seq<TDRMacro>, vals: Seq<i32>, off: u64, j: int) -> Result<
    bool,
    MetalibError,
>
    decreases vals.len() - j,
{
    if j < 0 || j >= vals.len() {
        Ok(false)
    } else if !(0 <= vals[j] < macros.len()) {
        Err(MetalibError::DanglingReference { offset: vals[j] })
    } else if macros[vals[j] as int]._offset == off {
        Ok(true)
    } else {
        group_holds(macros, vals, off, j + 1)
    }
}

/// Whether a group of `groups[g..]` holds the constant at body offset `off`,
/// scanning groups and their members in order.
pub open spec fn groups_hold(
    macros: Seq<TDRMacro>,
    groups: Seq<TDRMacroGroup>,
    off: u64,
    g: int,
) -> Result<bool, MetalibError>
    decreases groups.len() - g,
{
    if g < 0 || g >= groups.len() {
        Ok(false)
    } else {
        match group_holds(macros, groups[g].value_idx_map@, off, 0) {
            Ok(false) => groups_hold(macros, groups, off, g + 1),
            other => other,
        }
    }
}

impl Metalib {
    /// Returns the first definition with the given id.
    pub fn get_meta_by_id(&self, id: i32) -> (r: Result<&TDRMeta, MetalibError>)
        ensures
            r is Ok <==> meta_index_by_id(*self, id) is Some,
            r matches Ok(m) ==> *m == self.metas@[meta_index_by_id(*self, id)->0],
            r matches Err(e) ==> e == (MetalibError::DanglingReference { offset: id }),
    {
        if id == INVALID_METALIB_VALUE {
            return Err(MetalibError::DanglingReference { offset: id });
        }
        let mut i: usize = 0;
        while i < self.metas.len()
            invariant
                i <= self.metas@.len(),
                id != INVALID_METALIB_VALUE,
                first_meta_with_id(self.metas@, id, 0) == first_meta_with_id(
                    self.metas@,
                    id,
                    i as int,
                ),
            decreases self.metas@.len() - i,
        {
            if self.metas[i].id == id {
                assert(first_meta_with_id(self.metas@, id, i as int) == i);
                return Ok(&self.metas[i]);
            }
            i = i + 1;
        }
        Err(MetalibError::DanglingReference { offset: id })
    }

    /// Returns the definition at the given body offset.
    pub fn get_meta_by_offset(&self, offset: i32) -> (r: Result<&TDRMeta, MetalibError>)
        ensures
            r is Ok <==> meta_index_at(*self, offset) is Some,
            r matches Ok(m) ==> *m == self.metas@[meta_index_at(*self, offset)->0],
            r matches Err(e) ==> e == (MetalibError::DanglingReference { offset }),
    {
        if offset == INVALID_METALIB_VALUE {
            return Err(MetalibError::DanglingReference { offset });
        }
        let mut i: usize = 0;
        while i < self.metas.len()
            invariant
                i <= self.metas@.len(),
                offset != INVALID_METALIB_VALUE,
                first_meta_at(self.metas@, offset as u64, 0) == first_meta_at(
                    self.metas@,
                    offset as u64,
                    i as int,
                ),
            decreases self.metas@.len() - i,
        {
            if self.metas[i]._offset == offset as u64 {
                assert(first_meta_at(self.metas@, offset as u64, i as int) == i);
                return Ok(&self.metas[i]);
            }
            i = i + 1;
        }
        Err(MetalibError::DanglingReference { offset })
    }

    /// Returns the constant group at the given body offset.
    pub fn get_macrogroup_by_offset(&self, offset: i32) -> (r: Result<&TDRMacroGroup, MetalibError>)
        ensures
            r is Ok <==> group_index_at(*self, offset) is Some,
            r matches Ok(m) ==> *m == self.macrogroups@[group_index_at(*self, offset)->0],
            r matches Err(e) ==> e == (MetalibError::DanglingReference { offset }),
    {
        if offset == INVALID_METALIB_VALUE {
            return Err(MetalibError::DanglingReference { offset });
        }
        let mut i: usize = 0;
        while i < self.macrogroups.len()
            invariant
                i <= self.macrogroups@.len(),
                offset != INVALID_METALIB_VALUE,
                first_group_at(self.macrogroups@, offset as u64, 0) == first_group_at(
                    self.macrogroups@,
                    offset as u64,
                    i as int,
                ),
            decreases self.macrogroups@.len() - i,
        {
            if self.macrogroups[i]._offset == offset as u64 {
                assert(first_group_at(self.macrogroups@, offset as u64, i as int) == i);
                return Ok(&self.macrogroups[i]);
            }
            i = i + 1;
        }
        Err(MetalibError::DanglingReference { offset })
    }

    /// Returns true if the constant (identified by its body offset) is a
    /// member of any constant group.
    pub fn is_macro_in_group(&self, tdr_macro: &TDRMacro) -> (r: Result<bool, MetalibError>)
        ensures
            r == groups_hold(self.macros@, self.macrogroups@, tdr_macro._offset, 0),
    {
        let mut g: usize = 0;
        while g < self.macrogroups.len()
            invariant
                g <= self.macrogroups@.len(),
                groups_hold(self.macros@, self.macrogroups@, tdr_macro._offset, 0) == groups_hold(
                    self.macros@,
                    self.macrogroups@,
                    tdr_macro._offset,
                    g as int,
                ),
            decreases self.macrogroups@.len() - g,
        {
            let vals = &self.macrogroups[g].value_idx_map;
            let mut j: usize = 0;
            while j < vals.len()
                invariant
                    g < self.macrogroups@.len(),
                    *vals == self.macrogroups@[g as int].value_idx_map,
                    groups_hold(self.macros@, self.macrogroups@, tdr_macro._offset, 0)
                        == groups_hold(
                        self.macros@,
                        self.macrogroups@,
                        tdr_macro._offset,
                        g as int,
                    ),
                    j <= vals@.len(),
                    group_holds(self.macros@, vals@, tdr_macro._offset, 0) == group_holds(
                        self.macros@,
                        vals@,
                        tdr_macro._offset,
                        j as int,
                    ),
                decreases vals@.len() - j,
            {
                let idx = vals[j];
                if idx < 0 || idx as usize >= self.macros.len() {
                    assert(groups_hold(self.macros@, self.macrogroups@, tdr_macro._offset, g as int)
                        == group_holds(self.macros@, vals@, tdr_macro._offset, 0));
                    return Err(MetalibError::DanglingReference { offset: idx });
                }
                if self.macros[idx as usize]._offset == tdr_macro._offset {
                    assert(groups_hold(self.macros@, self.macrogroups@, tdr_macro._offset, g as int)
                        == group_holds(self.macros@, vals@, tdr_macro._offset, 0));
                    return Ok(true);
                }
                j = j + 1;
            }
            g = g + 1;
        }
        Ok(false)
    }
}

} // verus!
