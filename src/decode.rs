//! The section decoder: turns the bytes of a metalib into its model.
//!
//! Each record kind has a `*_check` spec function, the error its decode
//! raises (or `Ok`), and an `*_at` predicate, what a record decoded at a body
//! position holds.
use crate::bytes::{
    get_i16, get_i32, get_i64, get_u16, get_u32, get_u64, get_u8, le_i16, le_i32, le_i64, le_u16,
    le_u32, le_u64,
};
use crate::decimal::{i64_text, int_text, nat_text, u64_text};
use crate::error::{MetalibError, Unsupported};
use crate::model::{
    DefaultValue, Metalib, MetalibHeader, TDRDBKeyInfo, TDRIdEntry, TDRMacro, TDRMacroGroup,
    TDRMapEntry, TDRMeta, TDRMetaEntry, TDRNameEntry, TDRRedirector, TDRSelector, TDRSizeInfo,
    TDRSortKeyInfo, METALIB_HEADER_SIZE,
};
use crate::text::{
    cstr_bytes, cstr_ok, fixed_text, read_fixed_text, read_text_ref, read_utf8_cstr, text_ref,
    text_ref_ok, utf8_lossy_text,
};
use crate::types::{type_info, type_info_spec, type_of_tag, MetaPrimativeType};
use vstd::prelude::*;

verus! {

// Serialized sizes of the records, in bytes.
pub const SIZE_INFO_SIZE: usize = 16;
pub const REDIRECTOR_SIZE: usize = 12;
pub const SELECTOR_SIZE: usize = 12;
pub const SORT_KEY_SIZE: usize = 12;
pub const DB_KEY_SIZE: usize = 8;
pub const INDEX_ENTRY_SIZE: usize = 8;
pub const MACRO_SIZE: usize = 16;
pub const ENTRY_SIZE: usize = 180;
pub const META_SIZE: usize = 184;
/// A constant group without its two index arrays.
pub const GROUP_HEAD_SIZE: usize = 148;
pub const HEADER_SIZE: usize = 276;

/// `r` failed exactly as `c` says, or succeeded exactly when `c` is `Ok`.
pub open spec fn outcome<T>(r: Result<T, MetalibError>, c: Result<(), MetalibError>) -> bool {
    match r {
        Ok(_) => c is Ok,
        Err(e) => c == Err::<(), MetalibError>(e),
    }
}

pub open spec fn truncated(p: int) -> MetalibError {
    MetalibError::BufferTruncated { position: p as u64 }
}

/// `n` bytes starting at `p` lie inside `s`.
pub open spec fn fits(s: Seq<u8>, p: int, n: int) -> bool {
    0 <= p && p + n <= s.len()
}

fn fits_exec(b: &[u8], p: usize, n: usize) -> (r: bool)
    ensures
        r == fits(b@, p as int, n as int),
        b@.len() <= usize::MAX,
{
    p <= b.len() && b.len() - p >= n
}

/// A count field read as a number of records; negative counts read none.
pub open spec fn count_of(n: i32) -> nat {
    if n < 0 {
        0
    } else {
        n as nat
    }
}

/// The error of the offset-indirected text field whose offset is at `p`.
pub open spec fn text_check(s: Seq<u8>, p: int) -> Result<(), MetalibError> {
    if text_ref_ok(s, le_i32(s, p)) {
        Ok(())
    } else {
        Err(truncated(le_i32(s, p) as int))
    }
}

/// Decodes the offset-indirected text field at offset `k` of the record at `p`.
fn read_text_field(b: &[u8], p: usize, k: usize) -> (r: Result<String, MetalibError>)
    requires
        p + k + 4 <= b@.len(),
    ensures
        outcome(r, text_check(b@, p + k)),
        r matches Ok(t) ==> t@ == text_ref(b@, le_i32(b@, p + k)),
{
    read_text_ref(b, get_i32(b, p, k))
}

pub open spec fn size_info_at(s: Seq<u8>, p: int, x: TDRSizeInfo) -> bool {
    &&& x._offset == p
    &&& x.n_off == le_i32(s, p)
    &&& x.h_off == le_i32(s, p + 4)
    &&& x.unit_size == le_i32(s, p + 8)
    &&& x.idx_size_type == le_i32(s, p + 12)
}

fn read_tdr_size_info(b: &[u8], p: usize) -> (r: TDRSizeInfo)
    requires
        p + SIZE_INFO_SIZE <= b@.len(),
    ensures
        size_info_at(b@, p as int, r),
{
    TDRSizeInfo {
        _offset: p as u64,
        n_off: get_i32(b, p, 0),
        h_off: get_i32(b, p, 4),
        unit_size: get_i32(b, p, 8),
        idx_size_type: get_i32(b, p, 12),
    }
}

pub open spec fn redirector_at(s: Seq<u8>, p: int, x: TDRRedirector) -> bool {
    &&& x._offset == p
    &&& x.n_off == le_i32(s, p)
    &&& x.h_off == le_i32(s, p + 4)
    &&& x.unit_size == le_i32(s, p + 8)
}

fn read_tdr_redirector(b: &[u8], p: usize) -> (r: TDRRedirector)
    requires
        p + REDIRECTOR_SIZE <= b@.len(),
    ensures
        redirector_at(b@, p as int, r),
{
    TDRRedirector {
        _offset: p as u64,
        n_off: get_i32(b, p, 0),
        h_off: get_i32(b, p, 4),
        unit_size: get_i32(b, p, 8),
    }
}

pub open spec fn selector_at(s: Seq<u8>, p: int, x: TDRSelector) -> bool {
    &&& x._offset == p
    &&& x.unit_size == le_i32(s, p)
    &&& x.h_off == le_i32(s, p + 4)
    &&& x.ptr_entry == le_i32(s, p + 8)
}

fn read_tdr_selector(b: &[u8], p: usize) -> (r: TDRSelector)
    requires
        p + SELECTOR_SIZE <= b@.len(),
    ensures
        selector_at(b@, p as int, r),
{
    TDRSelector {
        _offset: p as u64,
        unit_size: get_i32(b, p, 0),
        h_off: get_i32(b, p, 4),
        ptr_entry: get_i32(b, p, 8),
    }
}

pub open spec fn sort_key_at(s: Seq<u8>, p: int, x: TDRSortKeyInfo) -> bool {
    &&& x._offset == p
    &&& x.idx_sort_entry == le_i32(s, p)
    &&& x.sort_key_offset == le_i32(s, p + 4)
    &&& x.ptr_sort_key_meta == le_i32(s, p + 8)
}

fn read_tdr_sort_key_info(b: &[u8], p: usize) -> (r: TDRSortKeyInfo)
    requires
        p + SORT_KEY_SIZE <= b@.len(),
    ensures
        sort_key_at(b@, p as int, r),
{
    TDRSortKeyInfo {
        _offset: p as u64,
        idx_sort_entry: get_i32(b, p, 0),
        sort_key_offset: get_i32(b, p, 4),
        ptr_sort_key_meta: get_i32(b, p, 8),
    }
}

pub open spec fn db_key_at(s: Seq<u8>, p: int, x: TDRDBKeyInfo) -> bool {
    &&& x._offset == p
    &&& x.h_off == le_i32(s, p)
    &&& x.ptr_entry == le_i32(s, p + 4)
}

fn read_tdr_db_key_info(b: &[u8], p: usize) -> (r: TDRDBKeyInfo)
    requires
        p + DB_KEY_SIZE <= b@.len(),
    ensures
        db_key_at(b@, p as int, r),
{
    TDRDBKeyInfo { _offset: p as u64, h_off: get_i32(b, p, 0), ptr_entry: get_i32(b, p, 4) }
}

pub open spec fn id_entry_at(s: Seq<u8>, p: int, x: TDRIdEntry) -> bool {
    &&& x._offset == p
    &&& x.id == le_i32(s, p)
    &&& x.idx == le_i32(s, p + 4)
}

fn read_tdr_id_entry(b: &[u8], p: usize) -> (r: TDRIdEntry)
    requires
        p + INDEX_ENTRY_SIZE <= b@.len(),
    ensures
        id_entry_at(b@, p as int, r),
{
    TDRIdEntry { _offset: p as u64, id: get_i32(b, p, 0), idx: get_i32(b, p, 4) }
}

pub open spec fn name_entry_at(s: Seq<u8>, p: int, x: TDRNameEntry) -> bool {
    &&& x._offset == p
    &&& x.ptr == le_i32(s, p)
    &&& x.idx == le_i32(s, p + 4)
}

fn read_tdr_name_entry(b: &[u8], p: usize) -> (r: TDRNameEntry)
    requires
        p + INDEX_ENTRY_SIZE <= b@.len(),
    ensures
        name_entry_at(b@, p as int, r),
{
    TDRNameEntry { _offset: p as u64, ptr: get_i32(b, p, 0), idx: get_i32(b, p, 4) }
}

pub open spec fn map_entry_at(s: Seq<u8>, p: int, x: TDRMapEntry) -> bool {
    &&& x._offset == p
    &&& x.ptr == le_i32(s, p)
    &&& x.size == le_i32(s, p + 4)
}

fn read_tdr_map_entry(b: &[u8], p: usize) -> (r: TDRMapEntry)
    requires
        p + INDEX_ENTRY_SIZE <= b@.len(),
    ensures
        map_entry_at(b@, p as int, r),
{
    TDRMapEntry { _offset: p as u64, ptr: get_i32(b, p, 0), size: get_i32(b, p, 4) }
}

pub open spec fn macro_check(s: Seq<u8>, p: int) -> Result<(), MetalibError> {
    if !fits(s, p, MACRO_SIZE as int) {
        Err(truncated(p))
    } else if text_check(s, p) is Err {
        text_check(s, p)
    } else {
        text_check(s, p + 8)
    }
}

pub open spec fn macro_at(s: Seq<u8>, p: int, x: TDRMacro) -> bool {
    &&& x._offset == p
    &&& x.name@ == text_ref(s, le_i32(s, p))
    &&& x.value == le_i32(s, p + 4)
    &&& x.desc@ == text_ref(s, le_i32(s, p + 8))
    &&& x.unk == le_i32(s, p + 12)
}

fn read_tdr_macro(b: &[u8], p: usize) -> (r: Result<TDRMacro, MetalibError>)
    ensures
        outcome(r, macro_check(b@, p as int)),
        r matches Ok(x) ==> macro_at(b@, p as int, x),
{
    if !fits_exec(b, p, MACRO_SIZE) {
        return Err(MetalibError::BufferTruncated { position: p as u64 });
    }
    let name = read_text_field(b, p, 0)?;
    let desc = read_text_field(b, p, 8)?;
    Ok(TDRMacro { _offset: p as u64, name, value: get_i32(b, p, 4), desc, unk: get_i32(b, p, 12) })
}

pub open spec fn header_check(s: Seq<u8>) -> Result<(), MetalibError> {
    if fits(s, 0, HEADER_SIZE as int) {
        Ok(())
    } else {
        Err(truncated(0))
    }
}

pub open spec fn header_at(s: Seq<u8>, h: MetalibHeader) -> bool {
    &&& h.magic == le_u16(s, 0)
    &&& h.build == le_u16(s, 2)
    &&& h.platform_arch == le_u32(s, 4)
    &&& h.size == le_u32(s, 8)
    &&& h.field_c == le_u32(s, 12)
    &&& h.field_10 == le_u32(s, 16)
    &&& h.field_14 == le_u32(s, 20)
    &&& h.field_18 == le_u32(s, 24)
    &&& h.id == le_i32(s, 28)
    &&& h.xml_tag_set_ver == le_u32(s, 32)
    &&& h.field_24 == le_u32(s, 36)
    &&& h.max_meta_num == le_i32(s, 40)
    &&& h.cur_meta_num == le_i32(s, 44)
    &&& h.max_macro_num == le_i32(s, 48)
    &&& h.cur_macro_num == le_i32(s, 52)
    &&& h.max_macros_group_num == le_i32(s, 56)
    &&& h.cur_macros_group_num == le_i32(s, 60)
    &&& h.field_40 == le_u32(s, 64)
    &&& h.field_44 == le_u32(s, 68)
    &&& h.version == le_u32(s, 72)
    &&& h.ptr_macro == le_u32(s, 76)
    &&& h.ptr_id == le_u32(s, 80)
    &&& h.ptr_name == le_u32(s, 84)
    &&& h.ptr_map == le_u32(s, 88)
    &&& h.ptr_meta == le_u32(s, 92)
    &&& h.ptr_last_meta == le_u32(s, 96)
    &&& h.free_str_buf_size == le_i32(s, 100)
    &&& h.ptr_str_buf == le_u32(s, 104)
    &&& h.ptr_free_str_buf == le_u32(s, 108)
    &&& h.ptr_macro_group_map == le_u32(s, 112)
    &&& h.ptr_macros_group == le_u32(s, 116)
    &&& h.field_78 == le_u32(s, 120)
    &&& h.field_7c == le_i32(s, 124)
    &&& h.field_80 == le_i32(s, 128)
    &&& h.field_84 == le_u32(s, 132)
    &&& h.field_88 == le_u32(s, 136)
    &&& h.field_8c == le_i32(s, 140)
    &&& h.field_90 == le_i32(s, 144)
    &&& h.name@ == fixed_text(s, 148, 128)
}

fn read_metalib_header(b: &[u8]) -> (r: Result<MetalibHeader, MetalibError>)
    ensures
        outcome(r, header_check(b@)),
        r matches Ok(h) ==> header_at(b@, h),
{
    if !fits_exec(b, 0, HEADER_SIZE) {
        return Err(MetalibError::BufferTruncated { position: 0 });
    }
    Ok(MetalibHeader {
        magic: get_u16(b, 0, 0),
        build: get_u16(b, 0, 2),
        platform_arch: get_u32(b, 0, 4),
        size: get_u32(b, 0, 8),
        field_c: get_u32(b, 0, 12),
        field_10: get_u32(b, 0, 16),
        field_14: get_u32(b, 0, 20),
        field_18: get_u32(b, 0, 24),
        id: get_i32(b, 0, 28),
        xml_tag_set_ver: get_u32(b, 0, 32),
        field_24: get_u32(b, 0, 36),
        max_meta_num: get_i32(b, 0, 40),
        cur_meta_num: get_i32(b, 0, 44),
        max_macro_num: get_i32(b, 0, 48),
        cur_macro_num: get_i32(b, 0, 52),
        max_macros_group_num: get_i32(b, 0, 56),
        cur_macros_group_num: get_i32(b, 0, 60),
        field_40: get_u32(b, 0, 64),
        field_44: get_u32(b, 0, 68),
        version: get_u32(b, 0, 72),
        ptr_macro: get_u32(b, 0, 76),
        ptr_id: get_u32(b, 0, 80),
        ptr_name: get_u32(b, 0, 84),
        ptr_map: get_u32(b, 0, 88),
        ptr_meta: get_u32(b, 0, 92),
        ptr_last_meta: get_u32(b, 0, 96),
        free_str_buf_size: get_i32(b, 0, 100),
        ptr_str_buf: get_u32(b, 0, 104),
        ptr_free_str_buf: get_u32(b, 0, 108),
        ptr_macro_group_map: get_u32(b, 0, 112),
        ptr_macros_group: get_u32(b, 0, 116),
        field_78: get_u32(b, 0, 120),
        field_7c: get_i32(b, 0, 124),
        field_80: get_i32(b, 0, 128),
        field_84: get_u32(b, 0, 132),
        field_88: get_u32(b, 0, 136),
        field_8c: get_i32(b, 0, 140),
        field_90: get_i32(b, 0, 144),
        name: read_fixed_text(b, 148, 128),
    })
}

/// How many bytes a default value of type `t` occupies: `Some(0)` for
/// NUL-terminated text, `None` for a type whose default has no text here.
pub open spec fn default_width(t: MetaPrimativeType) -> Option<int> {
    match t {
        MetaPrimativeType::CHAR | MetaPrimativeType::UCHAR | MetaPrimativeType::BYTE => Some(1),
        MetaPrimativeType::SHORT | MetaPrimativeType::USHORT => Some(2),
        MetaPrimativeType::INT | MetaPrimativeType::UINT | MetaPrimativeType::LONG
        | MetaPrimativeType::ULONG | MetaPrimativeType::FLOAT => Some(4),
        MetaPrimativeType::LONGLONG | MetaPrimativeType::ULONGLONG
        | MetaPrimativeType::DOUBLE => Some(8),
        MetaPrimativeType::STRING => Some(0),
        _ => None,
    }
}

/// The error of reading the default value at `ptr` of a field whose type row
/// is `idx_type`; the field record is at `rec`.
pub open spec fn default_check(s: Seq<u8>, idx_type: i32, ptr: i32, rec: int) -> Result<
    (),
    MetalibError,
> {
    if ptr == -1 {
        Ok(())
    } else {
        match type_info_spec(idx_type as int) {
            None => Err(MetalibError::UnknownTypeTag { tag: idx_type }),
            Some(ti) => match default_width(ti.primative_type) {
                None => Err(
                    MetalibError::UnsupportedAttribute {
                        record: rec as u64,
                        attribute: Unsupported::DefaultValueType,
                    },
                ),
                Some(w) => if (w == 0 && cstr_ok(s, ptr as int)) || (w > 0 && fits(
                    s,
                    ptr as int,
                    w,
                )) {
                    Ok(())
                } else {
                    Err(truncated(ptr as int))
                },
            },
        }
    }
}

/// The default value at `ptr` of a field whose type row is `idx_type`.
pub open spec fn default_value_spec(s: Seq<u8>, idx_type: i32, ptr: i32) -> DefaultValue {
    let p = ptr as int;
    if ptr == -1 {
        DefaultValue::Absent
    } else {
        match type_info_spec(idx_type as int) {
            Some(ti) => match ti.primative_type {
                MetaPrimativeType::CHAR => DefaultValue::Signed(s[p] as i8 as i64),
                MetaPrimativeType::UCHAR | MetaPrimativeType::BYTE => DefaultValue::Unsigned(
                    s[p] as u64,
                ),
                MetaPrimativeType::SHORT => DefaultValue::Signed(le_i16(s, p) as i64),
                MetaPrimativeType::USHORT => DefaultValue::Unsigned(le_u16(s, p) as u64),
                MetaPrimativeType::INT | MetaPrimativeType::LONG => DefaultValue::Signed(
                    le_i32(s, p) as i64,
                ),
                MetaPrimativeType::UINT | MetaPrimativeType::ULONG => DefaultValue::Unsigned(
                    le_u32(s, p) as u64,
                ),
                MetaPrimativeType::LONGLONG => DefaultValue::Signed(le_i64(s, p)),
                MetaPrimativeType::ULONGLONG => DefaultValue::Unsigned(le_u64(s, p)),
                MetaPrimativeType::FLOAT => DefaultValue::Float(le_u32(s, p)),
                MetaPrimativeType::DOUBLE => DefaultValue::Double(le_u64(s, p)),
                MetaPrimativeType::STRING => DefaultValue::Text,
                _ => DefaultValue::Absent,
            },
            None => DefaultValue::Absent,
        }
    }
}

/// The text of a default value; floating-point values have none here.
pub open spec fn default_text_spec(s: Seq<u8>, idx_type: i32, ptr: i32) -> Seq<char> {
    match default_value_spec(s, idx_type, ptr) {
        DefaultValue::Signed(v) => int_text(v as int),
        DefaultValue::Unsigned(v) => nat_text(v as nat),
        DefaultValue::Text => utf8_lossy_text(cstr_bytes(s, ptr as int)),
        _ => Seq::empty(),
    }
}

fn read_default_value(b: &[u8], idx_type: i32, ptr: i32, rec: usize) -> (r: Result<
    (DefaultValue, String),
    MetalibError,
>)
    ensures
        outcome(r, default_check(b@, idx_type, ptr, rec as int)),
        r matches Ok((v, t)) ==> v == default_value_spec(b@, idx_type, ptr) && t@
            == default_text_spec(b@, idx_type, ptr),
{
    if ptr == -1 {
        return Ok((DefaultValue::Absent, String::new()));
    }
    let ti = match type_info(idx_type) {
        None => {
            return Err(MetalibError::UnknownTypeTag { tag: idx_type });
        },
        Some(ti) => ti,
    };
    let truncated = MetalibError::BufferTruncated { position: ptr as u64 };
    let width: usize = match ti.primative_type {
        MetaPrimativeType::CHAR | MetaPrimativeType::UCHAR | MetaPrimativeType::BYTE => 1,
        MetaPrimativeType::SHORT | MetaPrimativeType::USHORT => 2,
        MetaPrimativeType::INT | MetaPrimativeType::UINT | MetaPrimativeType::LONG
        | MetaPrimativeType::ULONG | MetaPrimativeType::FLOAT => 4,
        MetaPrimativeType::LONGLONG | MetaPrimativeType::ULONGLONG
        | MetaPrimativeType::DOUBLE => 8,
        MetaPrimativeType::STRING => 0,
        _ => {
            return Err(
                MetalibError::UnsupportedAttribute {
                    record: rec as u64,
                    attribute: Unsupported::DefaultValueType,
                },
            );
        },
    };
    if ptr < 0 {
        return Err(truncated);
    }
    let p = ptr as usize;
    if width == 0 {
        let t = read_utf8_cstr(b, p)?;
        return Ok((DefaultValue::Text, t));
    }
    if !fits_exec(b, p, width) {
        return Err(truncated);
    }
    match ti.primative_type {
        MetaPrimativeType::CHAR => {
            let v = get_u8(b, p, 0) as i8 as i64;
            Ok((DefaultValue::Signed(v), i64_text(v)))
        },
        MetaPrimativeType::SHORT => {
            let v = get_i16(b, p, 0) as i64;
            Ok((DefaultValue::Signed(v), i64_text(v)))
        },
        MetaPrimativeType::INT | MetaPrimativeType::LONG => {
            let v = get_i32(b, p, 0) as i64;
            Ok((DefaultValue::Signed(v), i64_text(v)))
        },
        MetaPrimativeType::LONGLONG => {
            let v = get_i64(b, p, 0);
            Ok((DefaultValue::Signed(v), i64_text(v)))
        },
        MetaPrimativeType::USHORT => {
            let v = get_u16(b, p, 0) as u64;
            Ok((DefaultValue::Unsigned(v), u64_text(v)))
        },
        MetaPrimativeType::UINT | MetaPrimativeType::ULONG => {
            let v = get_u32(b, p, 0) as u64;
            Ok((DefaultValue::Unsigned(v), u64_text(v)))
        },
        MetaPrimativeType::ULONGLONG => {
            let v = get_u64(b, p, 0);
            Ok((DefaultValue::Unsigned(v), u64_text(v)))
        },
        MetaPrimativeType::FLOAT => Ok((DefaultValue::Float(get_u32(b, p, 0)), String::new())),
        MetaPrimativeType::DOUBLE => Ok((DefaultValue::Double(get_u64(b, p, 0)), String::new())),
        _ => {
            let v = get_u8(b, p, 0) as u64;
            Ok((DefaultValue::Unsigned(v), u64_text(v)))
        },
    }
}

pub open spec fn entry_check(s: Seq<u8>, p: int) -> Result<(), MetalibError> {
    if !fits(s, p, ENTRY_SIZE as int) {
        Err(truncated(p))
    } else if type_of_tag(le_i32(s, p + 8)) is None {
        Err(MetalibError::UnknownTypeTag { tag: le_i32(s, p + 8) })
    } else if text_check(s, p + 12) is Err {
        text_check(s, p + 12)
    } else if text_check(s, p + 144) is Err {
        text_check(s, p + 144)
    } else if text_check(s, p + 148) is Err {
        text_check(s, p + 148)
    } else {
        default_check(s, le_i32(s, p + 60), le_i32(s, p + 152), p)
    }
}

pub open spec fn entry_at(s: Seq<u8>, p: int, e: TDRMetaEntry) -> bool {
    &&& e._offset == p
    &&& type_of_tag(le_i32(s, p + 8)) == Some(e.type_)
    &&& e.id == le_i32(s, p + 0)
    &&& e.version == le_i32(s, p + 4)
    &&& e.name@ == text_ref(s, le_i32(s, p + 12))
    &&& e.h_real_size == le_i32(s, p + 16)
    &&& e.n_real_size == le_i32(s, p + 20)
    &&& e.h_unit_size == le_i32(s, p + 24)
    &&& e.n_unit_size == le_i32(s, p + 28)
    &&& e.custom_h_unit_size == le_i32(s, p + 32)
    &&& e.count == le_i32(s, p + 36)
    &&& e.n_off == le_i32(s, p + 40)
    &&& e.h_off == le_i32(s, p + 44)
    &&& e.idx_id == le_i32(s, p + 48)
    &&& e.idx_version == le_i32(s, p + 52)
    &&& e.idx_count == le_i32(s, p + 56)
    &&& e.idx_type == le_i32(s, p + 60)
    &&& e.idx_custom_h_unit_size == le_i32(s, p + 64)
    &&& e.flag == le_u16(s, p + 68)
    &&& e.db_flag == s[p + 70]
    &&& e.order == s[p + 71]
    &&& size_info_at(s, p + 72, e.size_info)
    &&& selector_at(s, p + 88, e.referer)
    &&& selector_at(s, p + 100, e.selector)
    &&& e.io == le_i32(s, p + 112)
    &&& e.idx_io == le_i32(s, p + 116)
    &&& e.ptr_meta == le_i32(s, p + 120)
    &&& e.max_id == le_i32(s, p + 124)
    &&& e.min_id == le_i32(s, p + 128)
    &&& e.max_id_idx == le_i32(s, p + 132)
    &&& e.min_id_idx == le_i32(s, p + 136)
    &&& e.default_val_len == le_i32(s, p + 140)
    &&& e.desc@ == text_ref(s, le_i32(s, p + 144))
    &&& e.chinese_name@ == text_ref(s, le_i32(s, p + 148))
    &&& e.ptr_default_val == le_i32(s, p + 152)
    &&& e.ptr_macros_group == le_i32(s, p + 156)
    &&& e.ptr_custom_attr == le_i32(s, p + 160)
    &&& e.off_to_meta == le_i32(s, p + 164)
    &&& e.field_a8 == le_i32(s, p + 168)
    &&& e.field_ac == le_i32(s, p + 172)
    &&& e.field_b0 == le_i32(s, p + 176)
    &&& e.default_value == default_value_spec(s, le_i32(s, p + 60), le_i32(s, p + 152))
    &&& e.default_value_string@ == default_text_spec(s, le_i32(s, p + 60), le_i32(s, p + 152))
}

fn read_tdr_meta_entry(b: &[u8], p: usize) -> (r: Result<TDRMetaEntry, MetalibError>)
    ensures
        outcome(r, entry_check(b@, p as int)),
        r matches Ok(e) ==> entry_at(b@, p as int, e),
{
    if !fits_exec(b, p, ENTRY_SIZE) {
        return Err(MetalibError::BufferTruncated { position: p as u64 });
    }
    let type_ = MetaPrimativeType::from_int(get_i32(b, p, 8))?;
    let name = read_text_field(b, p, 12)?;
    let desc = read_text_field(b, p, 144)?;
    let chinese_name = read_text_field(b, p, 148)?;
    let (default_value, default_value_string) = read_default_value(
        b,
        get_i32(b, p, 60),
        get_i32(b, p, 152),
        p,
    )?;
    Ok(TDRMetaEntry {
        _offset: p as u64,
        type_,
        id: get_i32(b, p, 0),
        version: get_i32(b, p, 4),
        name,
        h_real_size: get_i32(b, p, 16),
        n_real_size: get_i32(b, p, 20),
        h_unit_size: get_i32(b, p, 24),
        n_unit_size: get_i32(b, p, 28),
        custom_h_unit_size: get_i32(b, p, 32),
        count: get_i32(b, p, 36),
        n_off: get_i32(b, p, 40),
        h_off: get_i32(b, p, 44),
        idx_id: get_i32(b, p, 48),
        idx_version: get_i32(b, p, 52),
        idx_count: get_i32(b, p, 56),
        idx_type: get_i32(b, p, 60),
        idx_custom_h_unit_size: get_i32(b, p, 64),
        flag: get_u16(b, p, 68),
        db_flag: get_u8(b, p, 70),
        order: get_u8(b, p, 71),
        size_info: read_tdr_size_info(b, p + 72),
        referer: read_tdr_selector(b, p + 88),
        selector: read_tdr_selector(b, p + 100),
        io: get_i32(b, p, 112),
        idx_io: get_i32(b, p, 116),
        ptr_meta: get_i32(b, p, 120),
        max_id: get_i32(b, p, 124),
        min_id: get_i32(b, p, 128),
        max_id_idx: get_i32(b, p, 132),
        min_id_idx: get_i32(b, p, 136),
        default_val_len: get_i32(b, p, 140),
        desc,
        chinese_name,
        ptr_default_val: get_i32(b, p, 152),
        ptr_macros_group: get_i32(b, p, 156),
        ptr_custom_attr: get_i32(b, p, 160),
        off_to_meta: get_i32(b, p, 164),
        field_a8: get_i32(b, p, 168),
        field_ac: get_i32(b, p, 172),
        field_b0: get_i32(b, p, 176),
        default_value,
        default_value_string,
    })
}

/// The position of field `k` of the definition at `p`.
pub open spec fn entry_pos(p: int, k: int) -> int {
    p + META_SIZE + ENTRY_SIZE * k
}

/// The error of decoding fields `k..n` of the definition at `p`.
pub open spec fn entries_check(s: Seq<u8>, p: int, n: nat, k: nat) -> Result<(), MetalibError>
    decreases n - k,
{
    if k >= n {
        Ok(())
    } else if entry_check(s, entry_pos(p, k as int)) is Err {
        entry_check(s, entry_pos(p, k as int))
    } else {
        entries_check(s, p, n, k + 1)
    }
}

pub open spec fn meta_check(s: Seq<u8>, p: int) -> Result<(), MetalibError> {
    if !fits(s, p, META_SIZE as int) {
        Err(truncated(p))
    } else if type_of_tag(le_i32(s, p + 16)) is None {
        Err(MetalibError::UnknownTypeTag { tag: le_i32(s, p + 16) })
    } else if text_check(s, p + 132) is Err {
        text_check(s, p + 132)
    } else if text_check(s, p + 136) is Err {
        text_check(s, p + 136)
    } else if text_check(s, p + 140) is Err {
        text_check(s, p + 140)
    } else {
        entries_check(s, p, count_of(le_i32(s, p + 44)), 0)
    }
}

pub open spec fn meta_at(s: Seq<u8>, p: int, m: TDRMeta) -> bool {
    &&& m._offset == p
    &&& type_of_tag(le_i32(s, p + 16)) == Some(m.type_)
    &&& m.flags == le_u32(s, p + 0)
    &&& m.id == le_i32(s, p + 4)
    &&& m.base_version == le_i32(s, p + 8)
    &&& m.cur_version == le_i32(s, p + 12)
    &&& m.mem_size == le_i32(s, p + 20)
    &&& m.n_unit_size == le_i32(s, p + 24)
    &&& m.h_unit_size == le_i32(s, p + 28)
    &&& m.custom_h_unit_size == le_i32(s, p + 32)
    &&& m.idx_custom_h_unit_size == le_i32(s, p + 36)
    &&& m.uncertain_max_sub_id == le_i32(s, p + 40)
    &&& m.entries_num == le_i32(s, p + 44)
    &&& m.unk_table_count == le_i32(s, p + 48)
    &&& m.unk_table_ptr == le_i32(s, p + 52)
    &&& m.unk_table_unk == le_i32(s, p + 56)
    &&& m.ptr_meta == le_i32(s, p + 60)
    &&& m.idx == le_i32(s, p + 64)
    &&& m.idx_id == le_i32(s, p + 68)
    &&& m.idx_type == le_i32(s, p + 72)
    &&& m.idx_version == le_i32(s, p + 76)
    &&& m.custom_align == le_i32(s, p + 80)
    &&& m.valid_align == le_i32(s, p + 84)
    &&& m.uncertain_version_indicator_min_ver == le_i32(s, p + 88)
    &&& size_info_at(s, p + 92, m.size_type)
    &&& redirector_at(s, p + 108, m.version_indicator)
    &&& sort_key_at(s, p + 120, m.sort_key)
    &&& m.name@ == text_ref(s, le_i32(s, p + 132))
    &&& m.desc@ == text_ref(s, le_i32(s, p + 136))
    &&& m.chinese_name@ == text_ref(s, le_i32(s, p + 140))
    &&& m.split_table_factor == le_i32(s, p + 144)
    &&& m.split_table_rule_id == le_i16(s, p + 148)
    &&& m.primary_key_member_num == le_i16(s, p + 150)
    &&& m.idx_split_table_factor == le_i32(s, p + 152)
    &&& db_key_at(s, p + 156, m.split_table_key)
    &&& m.ptr_primary_key_base == le_i32(s, p + 164)
    &&& m.ptr_dependon_struct == le_i32(s, p + 168)
    &&& m.field_ac == le_i32(s, p + 172)
    &&& m.field_b0 == le_i32(s, p + 176)
    &&& m.field_b4 == le_i32(s, p + 180)
    &&& m.entries@.len() == count_of(m.entries_num)
    &&& forall|k: int|
        0 <= k < m.entries@.len() ==> #[trigger] entry_at(s, entry_pos(p, k), m.entries@[k])
}

/// Decodes the fields that follow the definition at `p`.
fn read_entries(b: &[u8], p: usize, entries_num: i32) -> (r: Result<Vec<TDRMetaEntry>, MetalibError>)
    requires
        fits(b@, p as int, META_SIZE as int),
    ensures
        outcome(r, entries_check(b@, p as int, count_of(entries_num), 0)),
        r matches Ok(entries) ==> {
            &&& entries@.len() == count_of(entries_num)
            &&& forall|k: int|
                0 <= k < entries@.len() ==> #[trigger] entry_at(
                    b@,
                    entry_pos(p as int, k),
                    entries@[k],
                )
        },
{
    let _ = fits_exec(b, p, META_SIZE);
    let ghost n = count_of(entries_num);
    let mut entries: Vec<TDRMetaEntry> = Vec::new();
    let mut pos: usize = p + META_SIZE;
    let mut k: i32 = 0;
    while k < entries_num
        invariant
            0 <= k,
            k <= entries_num || k == 0,
            n == count_of(entries_num),
            pos == entry_pos(p as int, k as int),
            pos <= b@.len(),
            b@.len() <= usize::MAX,
            entries@.len() == k,
            forall|j: int|
                0 <= j < k ==> #[trigger] entry_at(b@, entry_pos(p as int, j), entries@[j]),
            entries_check(b@, p as int, n, 0) == entries_check(b@, p as int, n, k as nat),
        decreases entries_num - k,
    {
        let e = read_tdr_meta_entry(b, pos)?;
        entries.push(e);
        pos = pos + ENTRY_SIZE;
        k = k + 1;
    }
    Ok(entries)
}

fn read_tdr_meta(b: &[u8], p: usize) -> (r: Result<TDRMeta, MetalibError>)
    ensures
        outcome(r, meta_check(b@, p as int)),
        r matches Ok(m) ==> meta_at(b@, p as int, m),
{
    if !fits_exec(b, p, META_SIZE) {
        return Err(MetalibError::BufferTruncated { position: p as u64 });
    }
    let type_ = MetaPrimativeType::from_int(get_i32(b, p, 16))?;
    let name = read_text_field(b, p, 132)?;
    let desc = read_text_field(b, p, 136)?;
    let chinese_name = read_text_field(b, p, 140)?;
    let entries = read_entries(b, p, get_i32(b, p, 44))?;
    Ok(TDRMeta {
        _offset: p as u64,
        type_,
        flags: get_u32(b, p, 0),
        id: get_i32(b, p, 4),
        base_version: get_i32(b, p, 8),
        cur_version: get_i32(b, p, 12),
        mem_size: get_i32(b, p, 20),
        n_unit_size: get_i32(b, p, 24),
        h_unit_size: get_i32(b, p, 28),
        custom_h_unit_size: get_i32(b, p, 32),
        idx_custom_h_unit_size: get_i32(b, p, 36),
        uncertain_max_sub_id: get_i32(b, p, 40),
        entries_num: get_i32(b, p, 44),
        unk_table_count: get_i32(b, p, 48),
        unk_table_ptr: get_i32(b, p, 52),
        unk_table_unk: get_i32(b, p, 56),
        ptr_meta: get_i32(b, p, 60),
        idx: get_i32(b, p, 64),
        idx_id: get_i32(b, p, 68),
        idx_type: get_i32(b, p, 72),
        idx_version: get_i32(b, p, 76),
        custom_align: get_i32(b, p, 80),
        valid_align: get_i32(b, p, 84),
        uncertain_version_indicator_min_ver: get_i32(b, p, 88),
        size_type: read_tdr_size_info(b, p + 92),
        version_indicator: read_tdr_redirector(b, p + 108),
        sort_key: read_tdr_sort_key_info(b, p + 120),
        name,
        desc,
        chinese_name,
        split_table_factor: get_i32(b, p, 144),
        split_table_rule_id: get_i16(b, p, 148),
        primary_key_member_num: get_i16(b, p, 150),
        idx_split_table_factor: get_i32(b, p, 152),
        split_table_key: read_tdr_db_key_info(b, p + 156),
        ptr_primary_key_base: get_i32(b, p, 164),
        ptr_dependon_struct: get_i32(b, p, 168),
        field_ac: get_i32(b, p, 172),
        field_b0: get_i32(b, p, 176),
        field_b4: get_i32(b, p, 180),
        entries,
    })
}

/// The error of reading `n` records of `w` bytes from `start`, from record `k` on.
pub open spec fn table_check(s: Seq<u8>, start: int, w: int, n: nat, k: nat) -> Result<
    (),
    MetalibError,
>
    decreases n - k,
{
    if k >= n {
        Ok(())
    } else if !fits(s, start + w * k, w) {
        Err(truncated(start + w * k))
    } else {
        table_check(s, start, w, n, k + 1)
    }
}

/// Reads `n` little-endian 32-bit words from `q`.
fn read_words(b: &[u8], q: usize, n: i32) -> (r: Result<Vec<i32>, MetalibError>)
    requires
        q <= b@.len(),
    ensures
        outcome(r, table_check(b@, q as int, 4, count_of(n), 0)),
        r matches Ok(v) ==> {
            &&& v@.len() == count_of(n)
            &&& q + 4 * count_of(n) <= b@.len()
            &&& forall|j: int| 0 <= j < v@.len() ==> v@[j] == le_i32(b@, q + 4 * j)
        },
{
    let len: usize = b.len();
    let mut v: Vec<i32> = Vec::new();
    let mut pos: usize = q;
    let mut k: i32 = 0;
    while k < n
        invariant
            0 <= k,
            k <= n || k == 0,
            len == b@.len(),
            pos == q + 4 * k,
            pos <= len,
            v@.len() == k,
            forall|j: int| 0 <= j < k ==> v@[j] == le_i32(b@, q + 4 * j),
            table_check(b@, q as int, 4, count_of(n), 0) == table_check(
                b@,
                q as int,
                4,
                count_of(n),
                k as nat,
            ),
        decreases n - k,
    {
        if !fits_exec(b, pos, 4) {
            return Err(MetalibError::BufferTruncated { position: pos as u64 });
        }
        v.push(get_i32(b, pos, 0));
        pos = pos + 4;
        k = k + 1;
    }
    Ok(v)
}

/// The group at `p` records its index arrays where they are: the by-name
/// array right after the head, the by-value array right after that one.
pub open spec fn group_offsets_consistent(s: Seq<u8>, p: int) -> bool {
    let n = count_of(le_i32(s, p));
    &&& le_i32(s, p + 12) as int == GROUP_HEAD_SIZE as int
    &&& le_i32(s, p + 16) as int == GROUP_HEAD_SIZE + 4 * n
}

pub open spec fn group_check(s: Seq<u8>, p: int) -> Result<(), MetalibError> {
    let n = count_of(le_i32(s, p));
    if !fits(s, p, GROUP_HEAD_SIZE as int) {
        Err(truncated(p))
    } else if text_check(s, p + 8) is Err {
        text_check(s, p + 8)
    } else if !group_offsets_consistent(s, p) {
        Err(MetalibError::InconsistentLayout { record: p as u64 })
    } else if table_check(s, p + GROUP_HEAD_SIZE, 4, n, 0) is Err {
        table_check(s, p + GROUP_HEAD_SIZE, 4, n, 0)
    } else {
        table_check(s, p + GROUP_HEAD_SIZE + 4 * n, 4, n, 0)
    }
}

pub open spec fn group_at(s: Seq<u8>, p: int, g: TDRMacroGroup) -> bool {
    let n = count_of(le_i32(s, p));
    &&& g._offset == p
    &&& g.cur_macro_count == le_i32(s, p)
    &&& g.max_macro_count == le_i32(s, p + 4)
    &&& g.desc@ == text_ref(s, le_i32(s, p + 8))
    &&& g._ptr_name_idx_map == le_i32(s, p + 12)
    &&& g._ptr_value_idx_map == le_i32(s, p + 16)
    &&& g.name@ == fixed_text(s, p + 20, 128)
    &&& g.name_idx_map@.len() == n
    &&& g.value_idx_map@.len() == n
    &&& forall|j: int|
        0 <= j < n ==> g.name_idx_map@[j] == le_i32(s, p + GROUP_HEAD_SIZE + 4 * j)
    &&& forall|j: int|
        0 <= j < n ==> g.value_idx_map@[j] == le_i32(s, p + GROUP_HEAD_SIZE + 4 * n + 4 * j)
}

/// The number of bytes of the group at `p`, its two index arrays included.
pub open spec fn group_size(s: Seq<u8>, p: int) -> int {
    GROUP_HEAD_SIZE + 8 * count_of(le_i32(s, p))
}

fn read_tdr_macros_group(b: &[u8], p: usize) -> (r: Result<TDRMacroGroup, MetalibError>)
    ensures
        outcome(r, group_check(b@, p as int)),
        r matches Ok(g) ==> group_at(b@, p as int, g) && p + group_size(b@, p as int) <= b@.len(),
{
    if !fits_exec(b, p, GROUP_HEAD_SIZE) {
        return Err(MetalibError::BufferTruncated { position: p as u64 });
    }
    let desc = read_text_field(b, p, 8)?;
    let cur_macro_count = get_i32(b, p, 0);
    let n: i64 = if cur_macro_count < 0 {
        0
    } else {
        cur_macro_count as i64
    };
    if get_i32(b, p, 12) as i64 != GROUP_HEAD_SIZE as i64 || get_i32(b, p, 16) as i64
        != GROUP_HEAD_SIZE as i64 + 4 * n {
        return Err(MetalibError::InconsistentLayout { record: p as u64 });
    }
    let name_idx_map = read_words(b, p + GROUP_HEAD_SIZE, cur_macro_count)?;
    let q: usize = p + GROUP_HEAD_SIZE + 4 * name_idx_map.len();
    let value_idx_map = read_words(b, q, cur_macro_count)?;
    Ok(TDRMacroGroup {
        _offset: p as u64,
        cur_macro_count,
        max_macro_count: get_i32(b, p, 4),
        desc,
        _ptr_name_idx_map: get_i32(b, p, 12),
        _ptr_value_idx_map: get_i32(b, p, 16),
        name: read_fixed_text(b, p + 20, 128),
        name_idx_map,
        value_idx_map,
    })
}

/// The error of reading constants `k..n` of the table at `start`.
pub open spec fn macros_check(s: Seq<u8>, start: int, n: nat, k: nat) -> Result<(), MetalibError>
    decreases n - k,
{
    if k >= n {
        Ok(())
    } else if macro_check(s, start + MACRO_SIZE * k) is Err {
        macro_check(s, start + MACRO_SIZE * k)
    } else {
        macros_check(s, start, n, k + 1)
    }
}

/// The size in bytes of the definition at `p`, its fields included.
pub open spec fn meta_size(s: Seq<u8>, p: int) -> int {
    META_SIZE + ENTRY_SIZE * count_of(le_i32(s, p + 44))
}

/// The position of definition `k` of the table at `start`: each definition
/// is followed by its fields.
pub open spec fn meta_pos(s: Seq<u8>, start: int, k: nat) -> int
    decreases k,
{
    if k == 0 {
        start
    } else {
        let q = meta_pos(s, start, (k - 1) as nat);
        q + meta_size(s, q)
    }
}

pub open spec fn metas_check(s: Seq<u8>, start: int, n: nat, k: nat) -> Result<(), MetalibError>
    decreases n - k,
{
    if k >= n {
        Ok(())
    } else if meta_check(s, meta_pos(s, start, k)) is Err {
        meta_check(s, meta_pos(s, start, k))
    } else {
        metas_check(s, start, n, k + 1)
    }
}

/// The position of group `k` of the table at `start`: each group is followed
/// by its two index arrays.
pub open spec fn group_pos(s: Seq<u8>, start: int, k: nat) -> int
    decreases k,
{
    if k == 0 {
        start
    } else {
        let q = group_pos(s, start, (k - 1) as nat);
        q + group_size(s, q)
    }
}

pub open spec fn groups_check(s: Seq<u8>, start: int, n: nat, k: nat) -> Result<(), MetalibError>
    decreases n - k,
{
    if k >= n {
        Ok(())
    } else if group_check(s, group_pos(s, start, k)) is Err {
        group_check(s, group_pos(s, start, k))
    } else {
        groups_check(s, start, n, k + 1)
    }
}

fn read_macros(b: &[u8], start: usize, n: i32) -> (r: Result<Vec<TDRMacro>, MetalibError>)
    ensures
        outcome(r, macros_check(b@, start as int, count_of(n), 0)),
        r matches Ok(v) ==> {
            &&& v@.len() == count_of(n)
            &&& forall|i: int|
                0 <= i < v@.len() ==> #[trigger] macro_at(b@, start + MACRO_SIZE * i, v@[i])
        },
{
    let len: usize = b.len();
    let mut v: Vec<TDRMacro> = Vec::new();
    let mut pos: usize = start;
    let mut k: i32 = 0;
    while k < n
        invariant
            0 <= k,
            k <= n || k == 0,
            len == b@.len(),
            pos == start + MACRO_SIZE * k,
            v@.len() == k,
            forall|i: int|
                0 <= i < k ==> #[trigger] macro_at(b@, start + MACRO_SIZE * i, v@[i]),
            macros_check(b@, start as int, count_of(n), 0) == macros_check(
                b@,
                start as int,
                count_of(n),
                k as nat,
            ),
        decreases n - k,
    {
        let m = read_tdr_macro(b, pos)?;
        v.push(m);
        pos = pos + MACRO_SIZE;
        k = k + 1;
    }
    Ok(v)
}

fn read_id_entries(b: &[u8], start: usize, n: i32) -> (r: Result<Vec<TDRIdEntry>, MetalibError>)
    ensures
        outcome(r, table_check(b@, start as int, INDEX_ENTRY_SIZE as int, count_of(n), 0)),
        r matches Ok(v) ==> {
            &&& v@.len() == count_of(n)
            &&& forall|i: int|
                0 <= i < v@.len() ==> #[trigger] id_entry_at(
                    b@,
                    start + INDEX_ENTRY_SIZE * i,
                    v@[i],
                )
        },
{
    let len: usize = b.len();
    let mut v: Vec<TDRIdEntry> = Vec::new();
    let mut pos: usize = start;
    let mut k: i32 = 0;
    while k < n
        invariant
            0 <= k,
            k <= n || k == 0,
            len == b@.len(),
            pos == start + INDEX_ENTRY_SIZE * k,
            v@.len() == k,
            forall|i: int|
                0 <= i < k ==> #[trigger] id_entry_at(b@, start + INDEX_ENTRY_SIZE * i, v@[i]),
            table_check(b@, start as int, INDEX_ENTRY_SIZE as int, count_of(n), 0)
                == table_check(b@, start as int, INDEX_ENTRY_SIZE as int, count_of(n), k as nat),
        decreases n - k,
    {
        if !fits_exec(b, pos, INDEX_ENTRY_SIZE) {
            return Err(MetalibError::BufferTruncated { position: pos as u64 });
        }
        v.push(read_tdr_id_entry(b, pos));
        pos = pos + INDEX_ENTRY_SIZE;
        k = k + 1;
    }
    Ok(v)
}

fn read_name_entries(b: &[u8], start: usize, n: i32) -> (r: Result<
    Vec<TDRNameEntry>,
    MetalibError,
>)
    ensures
        outcome(r, table_check(b@, start as int, INDEX_ENTRY_SIZE as int, count_of(n), 0)),
        r matches Ok(v) ==> {
            &&& v@.len() == count_of(n)
            &&& forall|i: int|
                0 <= i < v@.len() ==> #[trigger] name_entry_at(
                    b@,
                    start + INDEX_ENTRY_SIZE * i,
                    v@[i],
                )
        },
{
    let len: usize = b.len();
    let mut v: Vec<TDRNameEntry> = Vec::new();
    let mut pos: usize = start;
    let mut k: i32 = 0;
    while k < n
        invariant
            0 <= k,
            k <= n || k == 0,
            len == b@.len(),
            pos == start + INDEX_ENTRY_SIZE * k,
            v@.len() == k,
            forall|i: int|
                0 <= i < k ==> #[trigger] name_entry_at(b@, start + INDEX_ENTRY_SIZE * i, v@[i]),
            table_check(b@, start as int, INDEX_ENTRY_SIZE as int, count_of(n), 0)
                == table_check(b@, start as int, INDEX_ENTRY_SIZE as int, count_of(n), k as nat),
        decreases n - k,
    {
        if !fits_exec(b, pos, INDEX_ENTRY_SIZE) {
            return Err(MetalibError::BufferTruncated { position: pos as u64 });
        }
        v.push(read_tdr_name_entry(b, pos));
        pos = pos + INDEX_ENTRY_SIZE;
        k = k + 1;
    }
    Ok(v)
}

fn read_map_entries(b: &[u8], start: usize, n: i32) -> (r: Result<Vec<TDRMapEntry>, MetalibError>)
    ensures
        outcome(r, table_check(b@, start as int, INDEX_ENTRY_SIZE as int, count_of(n), 0)),
        r matches Ok(v) ==> {
            &&& v@.len() == count_of(n)
            &&& forall|i: int|
                0 <= i < v@.len() ==> #[trigger] map_entry_at(
                    b@,
                    start + INDEX_ENTRY_SIZE * i,
                    v@[i],
                )
        },
{
    let len: usize = b.len();
    let mut v: Vec<TDRMapEntry> = Vec::new();
    let mut pos: usize = start;
    let mut k: i32 = 0;
    while k < n
        invariant
            0 <= k,
            k <= n || k == 0,
            len == b@.len(),
            pos == start + INDEX_ENTRY_SIZE * k,
            v@.len() == k,
            forall|i: int|
                0 <= i < k ==> #[trigger] map_entry_at(b@, start + INDEX_ENTRY_SIZE * i, v@[i]),
            table_check(b@, start as int, INDEX_ENTRY_SIZE as int, count_of(n), 0)
                == table_check(b@, start as int, INDEX_ENTRY_SIZE as int, count_of(n), k as nat),
        decreases n - k,
    {
        if !fits_exec(b, pos, INDEX_ENTRY_SIZE) {
            return Err(MetalibError::BufferTruncated { position: pos as u64 });
        }
        v.push(read_tdr_map_entry(b, pos));
        pos = pos + INDEX_ENTRY_SIZE;
        k = k + 1;
    }
    Ok(v)
}

fn read_metas(b: &[u8], start: usize, n: i32) -> (r: Result<Vec<TDRMeta>, MetalibError>)
    ensures
        outcome(r, metas_check(b@, start as int, count_of(n), 0)),
        r matches Ok(v) ==> {
            &&& v@.len() == count_of(n)
            &&& forall|i: int|
                0 <= i < v@.len() ==> #[trigger] meta_at(
                    b@,
                    meta_pos(b@, start as int, i as nat),
                    v@[i],
                )
        },
{
    let len: usize = b.len();
    let mut v: Vec<TDRMeta> = Vec::new();
    let mut pos: usize = start;
    let mut k: i32 = 0;
    while k < n
        invariant
            0 <= k,
            k <= n || k == 0,
            len == b@.len(),
            pos == meta_pos(b@, start as int, k as nat),
            v@.len() == k,
            forall|i: int|
                0 <= i < k ==> #[trigger] meta_at(b@, meta_pos(b@, start as int, i as nat), v@[i]),
            metas_check(b@, start as int, count_of(n), 0) == metas_check(
                b@,
                start as int,
                count_of(n),
                k as nat,
            ),
        decreases n - k,
    {
        let m = read_tdr_meta(b, pos)?;
        let ghost q = pos as int;
        assert(meta_pos(b@, start as int, (k + 1) as nat) == q + meta_size(b@, q));
        proof {
            lemma_entries_fit(b@, q, count_of(le_i32(b@, q + 44)), 0);
        }
        pos = pos + META_SIZE + ENTRY_SIZE * m.entries.len();
        v.push(m);
        k = k + 1;
    }
    Ok(v)
}

/// Fields `k..n` of the definition at `p` decode only if they lie in `s`.
proof fn lemma_entries_fit(s: Seq<u8>, p: int, n: nat, k: nat)
    requires
        k <= n,
        0 <= p,
        entries_check(s, p, n, k) is Ok,
        entry_pos(p, k as int) <= s.len(),
    ensures
        entry_pos(p, n as int) <= s.len(),
    decreases n - k,
{
    if k < n {
        assert(ENTRY_SIZE * (k + 1) == ENTRY_SIZE * k + ENTRY_SIZE) by (nonlinear_arith);
        lemma_entries_fit(s, p, n, k + 1);
    }
}

fn read_macros_groups(b: &[u8], start: usize, n: i32) -> (r: Result<
    Vec<TDRMacroGroup>,
    MetalibError,
>)
    ensures
        outcome(r, groups_check(b@, start as int, count_of(n), 0)),
        r matches Ok(v) ==> {
            &&& v@.len() == count_of(n)
            &&& forall|i: int|
                0 <= i < v@.len() ==> #[trigger] group_at(
                    b@,
                    group_pos(b@, start as int, i as nat),
                    v@[i],
                )
        },
{
    let len: usize = b.len();
    let mut v: Vec<TDRMacroGroup> = Vec::new();
    let mut pos: usize = start;
    let mut k: i32 = 0;
    while k < n
        invariant
            0 <= k,
            k <= n || k == 0,
            len == b@.len(),
            pos == group_pos(b@, start as int, k as nat),
            v@.len() == k,
            forall|i: int|
                0 <= i < k ==> #[trigger] group_at(
                    b@,
                    group_pos(b@, start as int, i as nat),
                    v@[i],
                ),
            groups_check(b@, start as int, count_of(n), 0) == groups_check(
                b@,
                start as int,
                count_of(n),
                k as nat,
            ),
        decreases n - k,
    {
        let g = read_tdr_macros_group(b, pos)?;
        let ghost q = pos as int;
        assert(group_pos(b@, start as int, (k + 1) as nat) == q + group_size(b@, q));
        pos = pos + GROUP_HEAD_SIZE + 8 * g.name_idx_map.len();
        v.push(g);
        k = k + 1;
    }
    Ok(v)
}

/// The body: the bytes after the header, up to the size the header declares.
pub open spec fn body_of(data: Seq<u8>) -> Seq<u8> {
    data.subrange(HEADER_SIZE as int, le_u32(data, 8) as int)
}

/// The error of decoding a whole metalib, or `Ok`.
pub open spec fn metalib_check(data: Seq<u8>) -> Result<(), MetalibError> {
    let size = le_u32(data, 8) as int;
    let body = body_of(data);
    let metas = count_of(le_i32(data, 44));
    if header_check(data) is Err {
        header_check(data)
    } else if size < HEADER_SIZE || size > data.len() {
        Err(truncated(size))
    } else if macros_check(body, le_u32(data, 76) as int, count_of(le_i32(data, 52)), 0) is Err {
        macros_check(body, le_u32(data, 76) as int, count_of(le_i32(data, 52)), 0)
    } else if table_check(body, le_u32(data, 80) as int, INDEX_ENTRY_SIZE as int, metas, 0) is Err {
        table_check(body, le_u32(data, 80) as int, INDEX_ENTRY_SIZE as int, metas, 0)
    } else if table_check(body, le_u32(data, 84) as int, INDEX_ENTRY_SIZE as int, metas, 0) is Err {
        table_check(body, le_u32(data, 84) as int, INDEX_ENTRY_SIZE as int, metas, 0)
    } else if table_check(body, le_u32(data, 88) as int, INDEX_ENTRY_SIZE as int, metas, 0) is Err {
        table_check(body, le_u32(data, 88) as int, INDEX_ENTRY_SIZE as int, metas, 0)
    } else if metas_check(body, le_u32(data, 92) as int, metas, 0) is Err {
        metas_check(body, le_u32(data, 92) as int, metas, 0)
    } else {
        groups_check(body, le_u32(data, 116) as int, count_of(le_i32(data, 60)), 0)
    }
}

/// What a metalib decoded from `data` holds: the header, then each table
/// read from the body at the offset and with the count that the header gives.
pub open spec fn metalib_at(data: Seq<u8>, lib: Metalib) -> bool {
    let body = body_of(data);
    let h = lib.header;
    &&& header_at(data, h)
    &&& lib.macros@.len() == count_of(h.cur_macro_num)
    &&& forall|i: int|
        0 <= i < lib.macros@.len() ==> #[trigger] macro_at(
            body,
            h.ptr_macro + MACRO_SIZE * i,
            lib.macros@[i],
        )
    &&& lib.ids@.len() == count_of(h.cur_meta_num)
    &&& forall|i: int|
        0 <= i < lib.ids@.len() ==> #[trigger] id_entry_at(
            body,
            h.ptr_id + INDEX_ENTRY_SIZE * i,
            lib.ids@[i],
        )
    &&& lib.names@.len() == count_of(h.cur_meta_num)
    &&& forall|i: int|
        0 <= i < lib.names@.len() ==> #[trigger] name_entry_at(
            body,
            h.ptr_name + INDEX_ENTRY_SIZE * i,
            lib.names@[i],
        )
    &&& lib.meta_map@.len() == count_of(h.cur_meta_num)
    &&& forall|i: int|
        0 <= i < lib.meta_map@.len() ==> #[trigger] map_entry_at(
            body,
            h.ptr_map + INDEX_ENTRY_SIZE * i,
            lib.meta_map@[i],
        )
    &&& lib.metas@.len() == count_of(h.cur_meta_num)
    &&& forall|i: int|
        0 <= i < lib.metas@.len() ==> #[trigger] meta_at(
            body,
            meta_pos(body, h.ptr_meta as int, i as nat),
            lib.metas@[i],
        )
    &&& lib.macrogroups@.len() == count_of(h.cur_macros_group_num)
    &&& forall|i: int|
        0 <= i < lib.macrogroups@.len() ==> #[trigger] group_at(
            body,
            group_pos(body, h.ptr_macros_group as int, i as nat),
            lib.macrogroups@[i],
        )
}

/// Decodes the metalib whose bytes start at the front of `data`; `offset` is
/// where those bytes were found, kept in the result.
pub fn read_metalib(data: &[u8], offset: u64) -> (r: Result<Metalib, MetalibError>)
    ensures
        outcome(r, metalib_check(data@)),
        r matches Ok(lib) ==> metalib_at(data@, lib) && lib._offset == offset,
{
    let header = read_metalib_header(data)?;
    let size = header.size;
    if size < METALIB_HEADER_SIZE || size as usize > data.len() {
        return Err(MetalibError::BufferTruncated { position: size as u64 });
    }
    let body = &data[HEADER_SIZE..size as usize];
    assert(body@ == body_of(data@));
    let macros = read_macros(body, header.ptr_macro as usize, header.cur_macro_num)?;
    let ids = read_id_entries(body, header.ptr_id as usize, header.cur_meta_num)?;
    let names = read_name_entries(body, header.ptr_name as usize, header.cur_meta_num)?;
    let meta_map = read_map_entries(body, header.ptr_map as usize, header.cur_meta_num)?;
    let metas = read_metas(body, header.ptr_meta as usize, header.cur_meta_num)?;
    let macrogroups = read_macros_groups(
        body,
        header.ptr_macros_group as usize,
        header.cur_macros_group_num,
    )?;
    Ok(Metalib { _offset: offset, header, macros, ids, names, meta_map, metas, macrogroups })
}

/// `a` and `b` hold the same values, texts compared by content.
pub open spec fn same_header(a: MetalibHeader, b: MetalibHeader) -> bool {
    &&& a.magic == b.magic
    &&& a.build == b.build
    &&& a.platform_arch == b.platform_arch
    &&& a.size == b.size
    &&& a.field_c == b.field_c
    &&& a.field_10 == b.field_10
    &&& a.field_14 == b.field_14
    &&& a.field_18 == b.field_18
    &&& a.id == b.id
    &&& a.xml_tag_set_ver == b.xml_tag_set_ver
    &&& a.field_24 == b.field_24
    &&& a.max_meta_num == b.max_meta_num
    &&& a.cur_meta_num == b.cur_meta_num
    &&& a.max_macro_num == b.max_macro_num
    &&& a.cur_macro_num == b.cur_macro_num
    &&& a.max_macros_group_num == b.max_macros_group_num
    &&& a.cur_macros_group_num == b.cur_macros_group_num
    &&& a.field_40 == b.field_40
    &&& a.field_44 == b.field_44
    &&& a.version == b.version
    &&& a.ptr_macro == b.ptr_macro
    &&& a.ptr_id == b.ptr_id
    &&& a.ptr_name == b.ptr_name
    &&& a.ptr_map == b.ptr_map
    &&& a.ptr_meta == b.ptr_meta
    &&& a.ptr_last_meta == b.ptr_last_meta
    &&& a.free_str_buf_size == b.free_str_buf_size
    &&& a.ptr_str_buf == b.ptr_str_buf
    &&& a.ptr_free_str_buf == b.ptr_free_str_buf
    &&& a.ptr_macro_group_map == b.ptr_macro_group_map
    &&& a.ptr_macros_group == b.ptr_macros_group
    &&& a.field_78 == b.field_78
    &&& a.field_7c == b.field_7c
    &&& a.field_80 == b.field_80
    &&& a.field_84 == b.field_84
    &&& a.field_88 == b.field_88
    &&& a.field_8c == b.field_8c
    &&& a.field_90 == b.field_90
    &&& a.name@ == b.name@
}

/// `a` and `b` hold the same values, texts compared by content.
pub open spec fn same_macro(a: TDRMacro, b: TDRMacro) -> bool {
    &&& a._offset == b._offset
    &&& a.name@ == b.name@
    &&& a.value == b.value
    &&& a.desc@ == b.desc@
    &&& a.unk == b.unk
}

/// `a` and `b` hold the same values, texts compared by content.
pub open spec fn same_entry(a: TDRMetaEntry, b: TDRMetaEntry) -> bool {
    &&& a._offset == b._offset
    &&& a.id == b.id
    &&& a.version == b.version
    &&& a.type_ == b.type_
    &&& a.name@ == b.name@
    &&& a.h_real_size == b.h_real_size
    &&& a.n_real_size == b.n_real_size
    &&& a.h_unit_size == b.h_unit_size
    &&& a.n_unit_size == b.n_unit_size
    &&& a.custom_h_unit_size == b.custom_h_unit_size
    &&& a.count == b.count
    &&& a.n_off == b.n_off
    &&& a.h_off == b.h_off
    &&& a.idx_id == b.idx_id
    &&& a.idx_version == b.idx_version
    &&& a.idx_count == b.idx_count
    &&& a.idx_type == b.idx_type
    &&& a.idx_custom_h_unit_size == b.idx_custom_h_unit_size
    &&& a.flag == b.flag
    &&& a.db_flag == b.db_flag
    &&& a.order == b.order
    &&& a.size_info == b.size_info
    &&& a.referer == b.referer
    &&& a.selector == b.selector
    &&& a.io == b.io
    &&& a.idx_io == b.idx_io
    &&& a.ptr_meta == b.ptr_meta
    &&& a.max_id == b.max_id
    &&& a.min_id == b.min_id
    &&& a.max_id_idx == b.max_id_idx
    &&& a.min_id_idx == b.min_id_idx
    &&& a.default_val_len == b.default_val_len
    &&& a.desc@ == b.desc@
    &&& a.chinese_name@ == b.chinese_name@
    &&& a.ptr_default_val == b.ptr_default_val
    &&& a.ptr_macros_group == b.ptr_macros_group
    &&& a.ptr_custom_attr == b.ptr_custom_attr
    &&& a.off_to_meta == b.off_to_meta
    &&& a.field_a8 == b.field_a8
    &&& a.field_ac == b.field_ac
    &&& a.field_b0 == b.field_b0
    &&& a.default_value == b.default_value
    &&& a.default_value_string@ == b.default_value_string@
}

/// `a` and `b` hold the same values, fields included.
pub open spec fn same_meta(a: TDRMeta, b: TDRMeta) -> bool {
    &&& a._offset == b._offset
    &&& a.flags == b.flags
    &&& a.id == b.id
    &&& a.base_version == b.base_version
    &&& a.cur_version == b.cur_version
    &&& a.type_ == b.type_
    &&& a.mem_size == b.mem_size
    &&& a.n_unit_size == b.n_unit_size
    &&& a.h_unit_size == b.h_unit_size
    &&& a.custom_h_unit_size == b.custom_h_unit_size
    &&& a.idx_custom_h_unit_size == b.idx_custom_h_unit_size
    &&& a.uncertain_max_sub_id == b.uncertain_max_sub_id
    &&& a.entries_num == b.entries_num
    &&& a.unk_table_count == b.unk_table_count
    &&& a.unk_table_ptr == b.unk_table_ptr
    &&& a.unk_table_unk == b.unk_table_unk
    &&& a.ptr_meta == b.ptr_meta
    &&& a.idx == b.idx
    &&& a.idx_id == b.idx_id
    &&& a.idx_type == b.idx_type
    &&& a.idx_version == b.idx_version
    &&& a.custom_align == b.custom_align
    &&& a.valid_align == b.valid_align
    &&& a.uncertain_version_indicator_min_ver == b.uncertain_version_indicator_min_ver
    &&& a.size_type == b.size_type
    &&& a.version_indicator == b.version_indicator
    &&& a.sort_key == b.sort_key
    &&& a.name@ == b.name@
    &&& a.desc@ == b.desc@
    &&& a.chinese_name@ == b.chinese_name@
    &&& a.split_table_factor == b.split_table_factor
    &&& a.split_table_rule_id == b.split_table_rule_id
    &&& a.primary_key_member_num == b.primary_key_member_num
    &&& a.idx_split_table_factor == b.idx_split_table_factor
    &&& a.split_table_key == b.split_table_key
    &&& a.ptr_primary_key_base == b.ptr_primary_key_base
    &&& a.ptr_dependon_struct == b.ptr_dependon_struct
    &&& a.field_ac == b.field_ac
    &&& a.field_b0 == b.field_b0
    &&& a.field_b4 == b.field_b4
    &&& a.entries@.len() == b.entries@.len()
    &&& forall|k: int|
        0 <= k < a.entries@.len() ==> #[trigger] same_entry(a.entries@[k], b.entries@[k])
}

/// `a` and `b` hold the same values, texts compared by content.
pub open spec fn same_group(a: TDRMacroGroup, b: TDRMacroGroup) -> bool {
    &&& a._offset == b._offset
    &&& a.cur_macro_count == b.cur_macro_count
    &&& a.max_macro_count == b.max_macro_count
    &&& a.desc@ == b.desc@
    &&& a._ptr_name_idx_map == b._ptr_name_idx_map
    &&& a._ptr_value_idx_map == b._ptr_value_idx_map
    &&& a.name@ == b.name@
    &&& a.name_idx_map@ == b.name_idx_map@
    &&& a.value_idx_map@ == b.value_idx_map@
}

/// `a` and `b` are the same model: same header and same records in every table.
pub open spec fn same_metalib(a: Metalib, b: Metalib) -> bool {
    &&& a._offset == b._offset
    &&& same_header(a.header, b.header)
    &&& a.macros@.len() == b.macros@.len()
    &&& forall|i: int|
        0 <= i < a.macros@.len() ==> #[trigger] same_macro(a.macros@[i], b.macros@[i])
    &&& a.ids@ == b.ids@
    &&& a.names@ == b.names@
    &&& a.meta_map@ == b.meta_map@
    &&& a.metas@.len() == b.metas@.len()
    &&& forall|i: int|
        0 <= i < a.metas@.len() ==> #[trigger] same_meta(a.metas@[i], b.metas@[i])
    &&& a.macrogroups@.len() == b.macrogroups@.len()
    &&& forall|i: int|
        0 <= i < a.macrogroups@.len() ==> #[trigger] same_group(a.macrogroups@[i], b.macrogroups@[i])
}

/// Decoding is a function of the bytes: two models decoded from the same
/// bytes (and found at the same offset) are the same model.
pub proof fn lemma_decode_deterministic(data: Seq<u8>, a: Metalib, b: Metalib)
    requires
        metalib_at(data, a),
        metalib_at(data, b),
        a._offset == b._offset,
    ensures
        same_metalib(a, b),
{
    let body = body_of(data);
    let h = a.header;
    assert forall|i: int| 0 <= i < a.macros@.len() implies #[trigger] same_macro(
        a.macros@[i],
        b.macros@[i],
    ) by {
        assert(macro_at(body, h.ptr_macro + MACRO_SIZE * i, a.macros@[i]));
        assert(macro_at(body, h.ptr_macro + MACRO_SIZE * i, b.macros@[i]));
    }
    assert forall|i: int| 0 <= i < a.ids@.len() implies a.ids@[i] == b.ids@[i] by {
        assert(id_entry_at(body, h.ptr_id + INDEX_ENTRY_SIZE * i, a.ids@[i]));
        assert(id_entry_at(body, h.ptr_id + INDEX_ENTRY_SIZE * i, b.ids@[i]));
    }
    assert(a.ids@ =~= b.ids@);
    assert forall|i: int| 0 <= i < a.names@.len() implies a.names@[i] == b.names@[i] by {
        assert(name_entry_at(body, h.ptr_name + INDEX_ENTRY_SIZE * i, a.names@[i]));
        assert(name_entry_at(body, h.ptr_name + INDEX_ENTRY_SIZE * i, b.names@[i]));
    }
    assert(a.names@ =~= b.names@);
    assert forall|i: int| 0 <= i < a.meta_map@.len() implies a.meta_map@[i] == b.meta_map@[i] by {
        assert(map_entry_at(body, h.ptr_map + INDEX_ENTRY_SIZE * i, a.meta_map@[i]));
        assert(map_entry_at(body, h.ptr_map + INDEX_ENTRY_SIZE * i, b.meta_map@[i]));
    }
    assert(a.meta_map@ =~= b.meta_map@);
    assert forall|i: int| 0 <= i < a.metas@.len() implies #[trigger] same_meta(
        a.metas@[i],
        b.metas@[i],
    ) by {
        let p = meta_pos(body, h.ptr_meta as int, i as nat);
        assert(meta_at(body, p, a.metas@[i]));
        assert(meta_at(body, p, b.metas@[i]));
        assert forall|k: int| 0 <= k < a.metas@[i].entries@.len() implies #[trigger] same_entry(
            a.metas@[i].entries@[k],
            b.metas@[i].entries@[k],
        ) by {
            assert(entry_at(body, entry_pos(p, k), a.metas@[i].entries@[k]));
            assert(entry_at(body, entry_pos(p, k), b.metas@[i].entries@[k]));
        }
    }
    assert forall|i: int| 0 <= i < a.macrogroups@.len() implies #[trigger] same_group(
        a.macrogroups@[i],
        b.macrogroups@[i],
    ) by {
        let p = group_pos(body, h.ptr_macros_group as int, i as nat);
        assert(group_at(body, p, a.macrogroups@[i]));
        assert(group_at(body, p, b.macrogroups@[i]));
        assert(a.macrogroups@[i].name_idx_map@ =~= b.macrogroups@[i].name_idx_map@);
        assert(a.macrogroups@[i].value_idx_map@ =~= b.macrogroups@[i].value_idx_map@);
    }
}

} // verus!
