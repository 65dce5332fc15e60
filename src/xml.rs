//! The symbolic serializer: the XML schema text of a decoded metalib.
//!
//! Each spec function gives the text of one piece of output, or the error
//! that stops the export; a record's text is its pieces in order, and the
//! first error among them is the record's error.
use crate::decimal::{i64_text, int_text, nat_text, u64_text};
use crate::error::{MetalibError, Space, Unsupported};
use crate::model::{
    group_index_at, groups_hold, meta_index_at, Metalib, MetalibHeader, TDRMacro, TDRMacroGroup,
    TDRMeta, TDRMetaEntry,
    DB_FLAG_AUTO_INCREMENT, DB_FLAG_EXTEND_TO_TABLE, DB_FLAG_NOT_NULL, DB_FLAG_UNIQUE,
    ENTRY_FLAG_HAS_MAXMIN_ID, ENTRY_FLAG_POINT_TYPE, ENTRY_FLAG_REFER_TYPE, INVALID_METALIB_VALUE,
    META_FLAG_HAS_ID, META_FLAG_NEED_PREFIX_FOR_UNIQUENAME,
};
use crate::resolve::{
    resolve, resolve_meta_entry_name_by_host_offset, resolve_meta_entry_name_by_net_offset,
};
use crate::types::{tag_of, type_info, type_info_spec, MetaPrimativeType};
use vstd::prelude::*;
use vstd::string::*;

verus! {

/// The text of an exec result.
pub open spec fn text_of(r: Result<String, MetalibError>) -> Result<Seq<char>, MetalibError> {
    match r {
        Ok(s) => Ok(s@),
        Err(e) => Err(e),
    }
}

/// `a` followed by `b`; the first error wins.
pub open spec fn cat(a: Result<Seq<char>, MetalibError>, b: Result<Seq<char>, MetalibError>) -> Result<
    Seq<char>,
    MetalibError,
> {
    match a {
        Err(e) => Err(e),
        Ok(x) => match b {
            Err(e) => Err(e),
            Ok(y) => Ok(x + y),
        },
    }
}

/// No text, and no error.
pub open spec fn empty() -> Result<Seq<char>, MetalibError> {
    Ok(Seq::empty())
}

/// ` name="value"`
pub open spec fn attr(name: Seq<char>, value: Seq<char>) -> Seq<char> {
    " "@ + name + "=\""@ + value + "\""@
}

/// The attribute `name` with value `value`, if `value` is not an error.
pub open spec fn attr_of(name: Seq<char>, value: Result<Seq<char>, MetalibError>) -> Result<
    Seq<char>,
    MetalibError,
> {
    match value {
        Ok(v) => Ok(attr(name, v)),
        Err(e) => Err(e),
    }
}

/// The attribute `name` with value `value`, if `value` is not empty.
pub open spec fn nonempty_attr(name: Seq<char>, value: Seq<char>) -> Seq<char> {
    if value.len() == 0 {
        Seq::empty()
    } else {
        attr(name, value)
    }
}

fn push_attr(out: &mut String, name: &str, value: &str)
    ensures
        final(out)@ == old(out)@ + attr(name@, value@),
{
    out.append(" ");
    out.append(name);
    out.append("=\"");
    out.append(value);
    out.append("\"");
    assert(final(out)@ =~= old(out)@ + attr(name@, value@));
}

fn push_nonempty_attr(out: &mut String, name: &str, value: &str)
    ensures
        final(out)@ == old(out)@ + nonempty_attr(name@, value@),
{
    if !value.is_empty() {
        push_attr(out, name, value);
    } else {
        assert(old(out)@ + nonempty_attr(name@, value@) =~= old(out)@);
    }
}

/// The name of constant `idx`; an index outside the table is an error.
pub open spec fn macro_name(lib: Metalib, idx: i32) -> Result<Seq<char>, MetalibError> {
    if 0 <= idx < lib.macros@.len() {
        Ok(lib.macros@[idx as int].name@)
    } else {
        Err(MetalibError::DanglingReference { offset: idx })
    }
}

fn macro_name_exec(lib: &Metalib, idx: i32) -> (r: Result<String, MetalibError>)
    ensures
        text_of(r) == macro_name(*lib, idx),
{
    if 0 <= idx && (idx as usize) < lib.macros.len() {
        Ok(lib.macros[idx as usize].name.clone())
    } else {
        Err(MetalibError::DanglingReference { offset: idx })
    }
}

/// A value that is either the literal `lit` (when `idx` is -1) or the name
/// of constant `idx`.
pub open spec fn constant_or_literal_spec(lib: Metalib, idx: i32, lit: i32) -> Result<
    Seq<char>,
    MetalibError,
> {
    if idx == INVALID_METALIB_VALUE {
        Ok(int_text(lit as int))
    } else {
        macro_name(lib, idx)
    }
}

/// The text of a value backed either by the literal `lit` or, when `idx` is
/// not -1, by the constant at index `idx`, whose name is then emitted.
pub fn constant_or_literal(lib: &Metalib, idx: i32, lit: i32) -> (r: Result<String, MetalibError>)
    ensures
        text_of(r) == constant_or_literal_spec(*lib, idx, lit),
        idx == INVALID_METALIB_VALUE ==> text_of(r) == Ok::<Seq<char>, MetalibError>(
            int_text(lit as int),
        ),
        idx != INVALID_METALIB_VALUE && 0 <= idx < lib.macros@.len() ==> text_of(r) == Ok::<
            Seq<char>,
            MetalibError,
        >(lib.macros@[idx as int].name@),
        idx != INVALID_METALIB_VALUE && !(0 <= idx < lib.macros@.len()) ==> r is Err,
{
    if idx == INVALID_METALIB_VALUE {
        Ok(i64_text(lit as i64))
    } else {
        macro_name_exec(lib, idx)
    }
}

/// `<macro name=".." value=".." desc=".." />`, the description only when
/// it is not empty.
pub open spec fn macro_xml(m: TDRMacro) -> Seq<char> {
    "<macro"@ + attr("name"@, m.name@) + attr("value"@, int_text(m.value as int)) + nonempty_attr(
        "desc"@,
        m.desc@,
    ) + " />"@
}

/// The XML element of one constant.
pub fn dump_tdr_macro_xml(tdr_macro: &TDRMacro) -> (r: String)
    ensures
        r@ == macro_xml(*tdr_macro),
{
    let mut out = String::from_str("<macro");
    push_attr(&mut out, "name", tdr_macro.name.as_str());
    push_attr(&mut out, "value", i64_text(tdr_macro.value as i64).as_str());
    push_nonempty_attr(&mut out, "desc", tdr_macro.desc.as_str());
    out.append(" />");
    out
}

/// The member lines of a group: those of its first `n` value indices.
pub open spec fn group_members_xml(lib: Metalib, g: TDRMacroGroup, n: int) -> Result<
    Seq<char>,
    MetalibError,
>
    decreases n,
{
    if n <= 0 {
        empty()
    } else {
        let idx = g.value_idx_map@[n - 1];
        cat(
            group_members_xml(lib, g, n - 1),
            if 0 <= idx < lib.macros@.len() {
                Ok("\t\t"@ + macro_xml(lib.macros@[idx as int]) + "\n"@)
            } else {
                Err(MetalibError::DanglingReference { offset: idx })
            },
        )
    }
}

proof fn lemma_members_error_stays(lib: Metalib, g: TDRMacroGroup, k: int, n: int)
    requires
        0 <= k <= n,
        group_members_xml(lib, g, k) is Err,
    ensures
        group_members_xml(lib, g, n) == group_members_xml(lib, g, k),
    decreases n - k,
{
    if k < n {
        lemma_members_error_stays(lib, g, k, n - 1);
    }
}

/// A constant group and its members, in the order of its value indices.
#[verifier::opaque]
pub open spec fn macrogroup_xml(lib: Metalib, g: TDRMacroGroup) -> Result<Seq<char>, MetalibError> {
    cat(
        Ok("\t<macrosgroup"@ + attr("name"@, g.name@) + nonempty_attr("desc"@, g.desc@) + ">"@ + "\n"@),
        cat(group_members_xml(lib, g, g.value_idx_map@.len() as int), Ok("\t</macrosgroup>"@)),
    )
}

fn group_members_exec(metalib: &Metalib, macrogroup: &TDRMacroGroup) -> (r: Result<
    String,
    MetalibError,
>)
    ensures
        text_of(r) == group_members_xml(
            *metalib,
            *macrogroup,
            macrogroup.value_idx_map@.len() as int,
        ),
{
    let mut members = String::new();
    let mut j: usize = 0;
    while j < macrogroup.value_idx_map.len()
        invariant
            j <= macrogroup.value_idx_map@.len(),
            group_members_xml(*metalib, *macrogroup, j as int) == Ok::<Seq<char>, MetalibError>(
                members@,
            ),
        decreases macrogroup.value_idx_map@.len() - j,
    {
        let idx = macrogroup.value_idx_map[j];
        if idx < 0 || idx as usize >= metalib.macros.len() {
            proof {
                lemma_members_error_stays(
                    *metalib,
                    *macrogroup,
                    j as int + 1,
                    macrogroup.value_idx_map@.len() as int,
                );
            }
            return Err(MetalibError::DanglingReference { offset: idx });
        }
        let ghost before = members@;
        members.append("\t\t");
        members.append(dump_tdr_macro_xml(&metalib.macros[idx as usize]).as_str());
        members.append("\n");
        assert(members@ =~= before + ("\t\t"@ + macro_xml(metalib.macros@[idx as int]) + "\n"@));
        j = j + 1;
    }
    Ok(members)
}

/// The XML block of one constant group.
pub fn dump_tdr_macrogroup_xml(metalib: &Metalib, macrogroup: &TDRMacroGroup) -> (r: Result<
    String,
    MetalibError,
>)
    ensures
        text_of(r) == macrogroup_xml(*metalib, *macrogroup),
{
    proof {
        reveal(macrogroup_xml);
    }
    let mut out = String::from_str("\t<macrosgroup");
    push_attr(&mut out, "name", macrogroup.name.as_str());
    push_nonempty_attr(&mut out, "desc", macrogroup.desc.as_str());
    out.append(">");
    out.append("\n");
    let members = group_members_exec(metalib, macrogroup)?;
    let ghost head = out@;
    out.append(members.as_str());
    out.append("\t</macrosgroup>");
    assert(out@ =~= head + (members@ + "\t</macrosgroup>"@));
    Ok(out)
}

/// The error of field `e` using attribute `a`.
pub open spec fn unsupported(e: TDRMetaEntry, a: Unsupported) -> MetalibError {
    MetalibError::UnsupportedAttribute { record: e._offset, attribute: a }
}

/// The resolved path of `target` in `meta`, as the value of attribute `name`.
pub open spec fn path_attr(
    lib: Metalib,
    meta: TDRMeta,
    name: Seq<char>,
    target: i32,
    space: Space,
) -> Result<Seq<char>, MetalibError> {
    attr_of(name, resolve(lib, meta, target as int, space))
}

fn push_path_attr(
    out: &mut String,
    lib: &Metalib,
    meta: &TDRMeta,
    name: &str,
    target: i32,
    space: Space,
) -> (r: Result<(), MetalibError>)
    ensures
        match path_attr(*lib, *meta, name@, target, space) {
            Ok(a) => r is Ok && final(out)@ == old(out)@ + a,
            Err(e) => r == Err::<(), MetalibError>(e),
        },
{
    let path = match space {
        Space::Net => resolve_meta_entry_name_by_net_offset(lib, meta, target)?,
        Space::Host => resolve_meta_entry_name_by_host_offset(lib, meta, target)?,
    };
    push_attr(out, name, path.as_str());
    Ok(())
}

/// The `type` value of a field: its definition's name or its catalogue
/// name, after `*` for a pointer or `@` for a reference.
pub open spec fn entry_type_value(lib: Metalib, e: TDRMetaEntry) -> Result<Seq<char>, MetalibError> {
    let prefix = if e.flag & ENTRY_FLAG_POINT_TYPE != 0 {
        "*"@
    } else if e.flag & ENTRY_FLAG_REFER_TYPE != 0 {
        "@"@
    } else {
        Seq::empty()
    };
    let name = if e.ptr_meta != INVALID_METALIB_VALUE {
        match meta_index_at(lib, e.ptr_meta) {
            Some(k) => Ok(lib.metas@[k].name@),
            None => Err(MetalibError::DanglingReference { offset: e.ptr_meta }),
        }
    } else if e.idx_type != INVALID_METALIB_VALUE {
        match type_info_spec(e.idx_type as int) {
            Some(ti) => Ok(ti.xml_name@),
            None => Err(MetalibError::UnknownTypeTag { tag: e.idx_type }),
        }
    } else {
        Ok(Seq::empty())
    };
    match name {
        Ok(n) => Ok(prefix + n),
        Err(x) => Err(x),
    }
}

fn entry_type_value_exec(lib: &Metalib, e: &TDRMetaEntry) -> (r: Result<String, MetalibError>)
    ensures
        text_of(r) == entry_type_value(*lib, *e),
{
    let mut out = if e.flag & ENTRY_FLAG_POINT_TYPE != 0 {
        String::from_str("*")
    } else if e.flag & ENTRY_FLAG_REFER_TYPE != 0 {
        String::from_str("@")
    } else {
        String::new()
    };
    if e.ptr_meta != INVALID_METALIB_VALUE {
        let m = lib.get_meta_by_offset(e.ptr_meta)?;
        out.append(m.name.as_str());
    } else if e.idx_type != INVALID_METALIB_VALUE {
        match type_info(e.idx_type) {
            Some(ti) => out.append(ti.xml_name),
            None => {
                return Err(MetalibError::UnknownTypeTag { tag: e.idx_type });
            },
        }
    }
    Ok(out)
}

/// The `id` attribute of a field: a constant's name, else the literal id
/// unless it is -1.
pub open spec fn entry_id_attr(lib: Metalib, e: TDRMetaEntry) -> Result<Seq<char>, MetalibError> {
    if e.idx_id != INVALID_METALIB_VALUE {
        attr_of("id"@, macro_name(lib, e.idx_id))
    } else if e.id != INVALID_METALIB_VALUE {
        Ok(attr("id"@, int_text(e.id as int)))
    } else {
        empty()
    }
}

/// The `size` attribute of a field: a constant's name, else its custom
/// size counted in units of its type.
pub open spec fn entry_size_attr(lib: Metalib, e: TDRMetaEntry) -> Result<Seq<char>, MetalibError> {
    if e.idx_custom_h_unit_size != INVALID_METALIB_VALUE {
        attr_of("size"@, macro_name(lib, e.idx_custom_h_unit_size))
    } else if e.custom_h_unit_size > 0 {
        match type_info_spec(e.idx_type as int) {
            None => Err(MetalibError::UnknownTypeTag { tag: e.idx_type }),
            Some(ti) => if ti.size <= 0 {
                Err(unsupported(e, Unsupported::ZeroSizedUnit))
            } else {
                Ok(attr("size"@, int_text(e.custom_h_unit_size as int / ti.size as int)))
            },
        }
    } else {
        empty()
    }
}

/// The `sizeinfo` attribute of a field: the catalogue name of the size's
/// type (not for text types), else the path of the field holding the size.
pub open spec fn entry_sizeinfo_attr(lib: Metalib, meta: TDRMeta, e: TDRMetaEntry) -> Result<
    Seq<char>,
    MetalibError,
> {
    if e.size_info.unit_size <= 0 {
        empty()
    } else if e.size_info.idx_size_type != INVALID_METALIB_VALUE {
        match type_info_spec(e.size_info.idx_size_type as int) {
            None => Err(MetalibError::UnknownTypeTag { tag: e.size_info.idx_size_type }),
            Some(ti) => if ti.primative_type != MetaPrimativeType::STRING && ti.primative_type
                != MetaPrimativeType::WSTRING {
                Ok(attr("sizeinfo"@, ti.xml_name@))
            } else {
                empty()
            },
        }
    } else if e.size_info.n_off != INVALID_METALIB_VALUE {
        path_attr(lib, meta, "sizeinfo"@, e.size_info.n_off, Space::Net)
    } else {
        empty()
    }
}

/// The `sortMethod` attribute of an array field.
pub open spec fn entry_sort_attr(e: TDRMetaEntry) -> Seq<char> {
    if e.count > 1 && e.order == 1 {
        attr("sortMethod"@, "asc"@)
    } else if e.count > 1 && e.order == 2 {
        attr("sortMethod"@, "desc"@)
    } else {
        Seq::empty()
    }
}

/// The `io` attribute of a field; codes other than 0 to 3 are not reconstructed.
pub open spec fn entry_io_attr(e: TDRMetaEntry) -> Result<Seq<char>, MetalibError> {
    if e.io == 0 {
        empty()
    } else if e.io == 1 {
        Ok(attr("io"@, "noinput"@))
    } else if e.io == 2 {
        Ok(attr("io"@, "nooutput"@))
    } else if e.io == 3 {
        Ok(attr("io"@, "noio"@))
    } else {
        Err(unsupported(e, Unsupported::IoMode))
    }
}

/// The `minid` and `maxid` attributes of a field that has bounds.
pub open spec fn entry_bounds_attrs(lib: Metalib, e: TDRMetaEntry) -> Result<
    Seq<char>,
    MetalibError,
> {
    if e.flag & ENTRY_FLAG_HAS_MAXMIN_ID != 0 {
        cat(
            attr_of("minid"@, constant_or_literal_spec(lib, e.min_id_idx, e.min_id)),
            attr_of("maxid"@, constant_or_literal_spec(lib, e.max_id_idx, e.max_id)),
        )
    } else {
        empty()
    }
}

/// The `bindmacrosgroup` attribute of a field: the bound group's name.
pub open spec fn entry_bind_attr(lib: Metalib, e: TDRMetaEntry) -> Result<Seq<char>, MetalibError> {
    if e.ptr_macros_group != INVALID_METALIB_VALUE {
        match group_index_at(lib, e.ptr_macros_group) {
            Some(k) => Ok(attr("bindmacrosgroup"@, lib.macrogroups@[k].name@)),
            None => Err(MetalibError::DanglingReference { offset: e.ptr_macros_group }),
        }
    } else {
        empty()
    }
}

/// The `refer` attribute of a field: the path of the field holding its count.
pub open spec fn entry_refer_attr(lib: Metalib, meta: TDRMeta, e: TDRMetaEntry) -> Result<
    Seq<char>,
    MetalibError,
> {
    if e.referer.h_off != INVALID_METALIB_VALUE {
        path_attr(lib, meta, "refer"@, e.referer.h_off, Space::Host)
    } else {
        empty()
    }
}

/// The `default` attribute of a field that has a default value.
pub open spec fn entry_default_attr(e: TDRMetaEntry) -> Seq<char> {
    if e.ptr_default_val != INVALID_METALIB_VALUE {
        attr("default"@, e.default_value_string@)
    } else {
        Seq::empty()
    }
}

/// The `select` attribute of a union field: the path of its selector field.
pub open spec fn entry_select_attr(lib: Metalib, meta: TDRMeta, e: TDRMetaEntry) -> Result<
    Seq<char>,
    MetalibError,
> {
    if e.type_ == MetaPrimativeType::UNION && e.selector.h_off != INVALID_METALIB_VALUE {
        path_attr(lib, meta, "select"@, e.selector.h_off, Space::Host)
    } else {
        empty()
    }
}

/// A field with custom attributes is not reconstructed.
pub open spec fn entry_custom_attr_check(e: TDRMetaEntry) -> Result<Seq<char>, MetalibError> {
    if e.ptr_custom_attr != INVALID_METALIB_VALUE {
        Err(unsupported(e, Unsupported::CustomAttribute))
    } else {
        empty()
    }
}

/// The attributes of field `e` of `meta` up to its `refer` attribute.
#[verifier::opaque]
pub open spec fn entry_head_xml(lib: Metalib, meta: TDRMeta, e: TDRMetaEntry) -> Result<
    Seq<char>,
    MetalibError,
> {
    let head = Ok("<entry"@ + attr("name"@, e.name@));
    let with_type = cat(head, attr_of("type"@, entry_type_value(lib, e)));
    let with_count = cat(
        with_type,
        if e.count > 1 {
            attr_of("count"@, constant_or_literal_spec(lib, e.idx_count, e.count))
        } else {
            empty()
        },
    );
    let with_version = cat(
        with_count,
        if e.version != meta.base_version {
            attr_of("version"@, constant_or_literal_spec(lib, e.idx_version, e.version))
        } else {
            empty()
        },
    );
    let with_id = cat(with_version, entry_id_attr(lib, e));
    let with_size = cat(with_id, entry_size_attr(lib, e));
    cat(
        with_size,
        Ok(
            nonempty_attr("cname"@, e.chinese_name@) + nonempty_attr("desc"@, e.desc@) + (
            if e.db_flag & DB_FLAG_UNIQUE != 0 {
                attr("unique"@, "true"@)
            } else {
                Seq::empty()
            }) + (if e.db_flag & DB_FLAG_NOT_NULL != 0 {
                attr("notnull"@, "true"@)
            } else {
                Seq::empty()
            }),
        ),
    )
}

/// The attributes of field `e` of `meta` from its `refer` attribute up to
/// its `select` attribute.
#[verifier::opaque]
pub open spec fn entry_middle_xml(lib: Metalib, meta: TDRMeta, e: TDRMetaEntry) -> Result<
    Seq<char>,
    MetalibError,
> {
    let with_default = cat(entry_refer_attr(lib, meta, e), Ok(entry_default_attr(e)));
    let with_sizeinfo = cat(with_default, entry_sizeinfo_attr(lib, meta, e));
    let with_sort = cat(with_sizeinfo, Ok(entry_sort_attr(e)));
    let with_io = cat(with_sort, entry_io_attr(e));
    let with_select = cat(with_io, entry_select_attr(lib, meta, e));
    with_select
}

/// The attributes of field `e` from its `minid` attribute on.
#[verifier::opaque]
pub open spec fn entry_tail_xml(lib: Metalib, e: TDRMetaEntry) -> Result<Seq<char>, MetalibError> {
    let with_bounds = entry_bounds_attrs(lib, e);
    let with_extend = cat(
        with_bounds,
        if e.db_flag & DB_FLAG_EXTEND_TO_TABLE != 0 {
            Err(unsupported(e, Unsupported::ExtendToTable))
        } else {
            empty()
        },
    );
    let with_bind = cat(with_extend, entry_bind_attr(lib, e));
    let with_auto = cat(
        with_bind,
        if e.db_flag & DB_FLAG_AUTO_INCREMENT != 0 {
            Err(unsupported(e, Unsupported::AutoIncrement))
        } else {
            empty()
        },
    );
    cat(with_auto, entry_custom_attr_check(e))
}

/// The `<entry .../>` element of field `e` of `meta`.
#[verifier::opaque]
pub open spec fn entry_xml(lib: Metalib, meta: TDRMeta, e: TDRMetaEntry) -> Result<
    Seq<char>,
    MetalibError,
> {
    cat(
        cat(cat(entry_head_xml(lib, meta, e), entry_middle_xml(lib, meta, e)), entry_tail_xml(lib, e)),
        Ok("/>"@),
    )
}

#[verifier::rlimit(60)]
fn entry_head_exec(lib: &Metalib, meta: &TDRMeta, e: &TDRMetaEntry) -> (r: Result<
    String,
    MetalibError,
>)
    ensures
        text_of(r) == entry_head_xml(*lib, *meta, *e),
{
    proof {
        reveal(entry_head_xml);
    }
    let mut out = String::from_str("<entry");
    push_attr(&mut out, "name", e.name.as_str());
    let type_value = entry_type_value_exec(lib, e)?;
    push_attr(&mut out, "type", type_value.as_str());
    if e.count > 1 {
        let count = constant_or_literal(lib, e.idx_count, e.count)?;
        push_attr(&mut out, "count", count.as_str());
    }
    if e.version != meta.base_version {
        let version = constant_or_literal(lib, e.idx_version, e.version)?;
        push_attr(&mut out, "version", version.as_str());
    }
    if e.idx_id != INVALID_METALIB_VALUE {
        let id = macro_name_exec(lib, e.idx_id)?;
        push_attr(&mut out, "id", id.as_str());
    } else if e.id != INVALID_METALIB_VALUE {
        push_attr(&mut out, "id", i64_text(e.id as i64).as_str());
    }
    if e.idx_custom_h_unit_size != INVALID_METALIB_VALUE {
        let size = macro_name_exec(lib, e.idx_custom_h_unit_size)?;
        push_attr(&mut out, "size", size.as_str());
    } else if e.custom_h_unit_size > 0 {
        match type_info(e.idx_type) {
            None => {
                return Err(MetalibError::UnknownTypeTag { tag: e.idx_type });
            },
            Some(ti) => {
                if ti.size <= 0 {
                    return Err(
                        MetalibError::UnsupportedAttribute {
                            record: e._offset,
                            attribute: Unsupported::ZeroSizedUnit,
                        },
                    );
                }
                let units = e.custom_h_unit_size / ti.size;
                push_attr(&mut out, "size", i64_text(units as i64).as_str());
            },
        }
    }
    let ghost before_flags = out@;
    push_nonempty_attr(&mut out, "cname", e.chinese_name.as_str());
    push_nonempty_attr(&mut out, "desc", e.desc.as_str());
    if e.db_flag & DB_FLAG_UNIQUE != 0 {
        push_attr(&mut out, "unique", "true");
    }
    if e.db_flag & DB_FLAG_NOT_NULL != 0 {
        push_attr(&mut out, "notnull", "true");
    }
    assert(out@ =~= before_flags + (nonempty_attr("cname"@, e.chinese_name@) + nonempty_attr(
        "desc"@,
        e.desc@,
    ) + (if e.db_flag & DB_FLAG_UNIQUE != 0 {
        attr("unique"@, "true"@)
    } else {
        Seq::empty()
    }) + (if e.db_flag & DB_FLAG_NOT_NULL != 0 {
        attr("notnull"@, "true"@)
    } else {
        Seq::empty()
    })));
    Ok(out)
}

fn entry_middle_exec(lib: &Metalib, meta: &TDRMeta, e: &TDRMetaEntry) -> (r: Result<
    String,
    MetalibError,
>)
    ensures
        text_of(r) == entry_middle_xml(*lib, *meta, *e),
{
    proof {
        reveal(entry_middle_xml);
    }
    let mut out = String::new();
    if e.referer.h_off != INVALID_METALIB_VALUE {
        push_path_attr(&mut out, lib, meta, "refer", e.referer.h_off, Space::Host)?;
    }
    if e.ptr_default_val != INVALID_METALIB_VALUE {
        push_attr(&mut out, "default", e.default_value_string.as_str());
    }
    if e.size_info.unit_size > 0 {
        if e.size_info.idx_size_type != INVALID_METALIB_VALUE {
            match type_info(e.size_info.idx_size_type) {
                None => {
                    return Err(MetalibError::UnknownTypeTag { tag: e.size_info.idx_size_type });
                },
                Some(ti) => {
                    if ti.primative_type != MetaPrimativeType::STRING && ti.primative_type
                        != MetaPrimativeType::WSTRING {
                        push_attr(&mut out, "sizeinfo", ti.xml_name);
                    }
                },
            }
        } else if e.size_info.n_off != INVALID_METALIB_VALUE {
            push_path_attr(&mut out, lib, meta, "sizeinfo", e.size_info.n_off, Space::Net)?;
        }
    }
    if e.count > 1 && e.order == 1 {
        push_attr(&mut out, "sortMethod", "asc");
    } else if e.count > 1 && e.order == 2 {
        push_attr(&mut out, "sortMethod", "desc");
    }
    if e.io == 1 {
        push_attr(&mut out, "io", "noinput");
    } else if e.io == 2 {
        push_attr(&mut out, "io", "nooutput");
    } else if e.io == 3 {
        push_attr(&mut out, "io", "noio");
    } else if e.io != 0 {
        return Err(
            MetalibError::UnsupportedAttribute { record: e._offset, attribute: Unsupported::IoMode },
        );
    }
    if e.type_ == MetaPrimativeType::UNION && e.selector.h_off != INVALID_METALIB_VALUE {
        push_path_attr(&mut out, lib, meta, "select", e.selector.h_off, Space::Host)?;
    }
    Ok(out)
}

fn entry_tail_exec(lib: &Metalib, e: &TDRMetaEntry) -> (r: Result<String, MetalibError>)
    ensures
        text_of(r) == entry_tail_xml(*lib, *e),
{
    proof {
        reveal(entry_tail_xml);
    }
    let mut out = String::new();
    if e.flag & ENTRY_FLAG_HAS_MAXMIN_ID != 0 {
        let min_id = constant_or_literal(lib, e.min_id_idx, e.min_id)?;
        push_attr(&mut out, "minid", min_id.as_str());
        let max_id = constant_or_literal(lib, e.max_id_idx, e.max_id)?;
        push_attr(&mut out, "maxid", max_id.as_str());
        assert(out@ =~= attr("minid"@, min_id@) + attr("maxid"@, max_id@));
    }
    if e.db_flag & DB_FLAG_EXTEND_TO_TABLE != 0 {
        return Err(
            MetalibError::UnsupportedAttribute {
                record: e._offset,
                attribute: Unsupported::ExtendToTable,
            },
        );
    }
    if e.ptr_macros_group != INVALID_METALIB_VALUE {
        let group = lib.get_macrogroup_by_offset(e.ptr_macros_group)?;
        push_attr(&mut out, "bindmacrosgroup", group.name.as_str());
    }
    if e.db_flag & DB_FLAG_AUTO_INCREMENT != 0 {
        return Err(
            MetalibError::UnsupportedAttribute {
                record: e._offset,
                attribute: Unsupported::AutoIncrement,
            },
        );
    }
    if e.ptr_custom_attr != INVALID_METALIB_VALUE {
        return Err(
            MetalibError::UnsupportedAttribute {
                record: e._offset,
                attribute: Unsupported::CustomAttribute,
            },
        );
    }
    Ok(out)
}

/// The XML element of one field of `meta`.
pub fn dump_tdr_meta_entry_xml(metalib: &Metalib, meta: &TDRMeta, meta_entry: &TDRMetaEntry) -> (r:
    Result<String, MetalibError>)
    ensures
        text_of(r) == entry_xml(*metalib, *meta, *meta_entry),
{
    proof {
        reveal(entry_xml);
    }
    let mut out = entry_head_exec(metalib, meta, meta_entry)?;
    let middle = entry_middle_exec(metalib, meta, meta_entry)?;
    out.append(middle.as_str());
    let tail = entry_tail_exec(metalib, meta_entry)?;
    out.append(tail.as_str());
    out.append("/>");
    Ok(out)
}

/// The element name of a definition: `union` or `struct`.
pub open spec fn meta_tag(meta: TDRMeta) -> Result<Seq<char>, MetalibError> {
    if meta.type_ == MetaPrimativeType::UNION {
        Ok("union"@)
    } else if meta.type_ == MetaPrimativeType::STRUCT {
        Ok("struct"@)
    } else {
        Err(MetalibError::UnknownTypeTag { tag: tag_of(meta.type_) })
    }
}

fn meta_tag_exec(meta: &TDRMeta) -> (r: Result<&'static str, MetalibError>)
    ensures
        match meta_tag(*meta) {
            Ok(t) => r matches Ok(s) && s@ == t,
            Err(e) => r == Err::<&'static str, MetalibError>(e),
        },
{
    match meta.type_ {
        MetaPrimativeType::UNION => Ok("union"),
        MetaPrimativeType::STRUCT => Ok("struct"),
        _ => Err(MetalibError::UnknownTypeTag { tag: meta.type_.to_int() }),
    }
}

/// The error of definition `meta` using attribute `a`.
pub open spec fn meta_unsupported(meta: TDRMeta, a: Unsupported) -> MetalibError {
    MetalibError::UnsupportedAttribute { record: meta._offset, attribute: a }
}

/// The opening of a definition's element, up to its description, given its
/// element name `tag`.
#[verifier::opaque]
pub open spec fn meta_head_xml(lib: Metalib, meta: TDRMeta, tag: Seq<char>) -> Result<
    Seq<char>,
    MetalibError,
> {
    let head = Ok("\t<"@ + tag + attr("name"@, meta.name@));
    let with_version = cat(
        head,
        attr_of("version"@, constant_or_literal_spec(lib, meta.idx_version, meta.base_version)),
    );
    let with_id = cat(
        with_version,
        if meta.flags & META_FLAG_HAS_ID != 0 {
            attr_of("id"@, constant_or_literal_spec(lib, meta.idx_id, meta.id))
        } else {
            empty()
        },
    );
    cat(with_id, Ok(nonempty_attr("cname"@, meta.chinese_name@) + nonempty_attr("desc"@, meta.desc@)))
}

/// The `size` attribute of a struct: a constant's name, else its custom size.
pub open spec fn meta_size_attr(lib: Metalib, meta: TDRMeta) -> Result<Seq<char>, MetalibError> {
    if meta.idx_custom_h_unit_size != INVALID_METALIB_VALUE {
        attr_of("size"@, macro_name(lib, meta.idx_custom_h_unit_size))
    } else if meta.custom_h_unit_size > 0 {
        Ok(attr("size"@, int_text(meta.custom_h_unit_size as int)))
    } else {
        empty()
    }
}

/// The `versionindicator` attribute of a struct: the path of the field
/// holding its version.
pub open spec fn meta_indicator_attr(lib: Metalib, meta: TDRMeta) -> Result<Seq<char>, MetalibError> {
    if meta.version_indicator.n_off != INVALID_METALIB_VALUE {
        path_attr(lib, meta, "versionindicator"@, meta.version_indicator.n_off, Space::Net)
    } else {
        empty()
    }
}

/// The `sortkey` attribute of a struct: the path of its sort key field.
pub open spec fn meta_sortkey_attr(lib: Metalib, meta: TDRMeta) -> Result<Seq<char>, MetalibError> {
    if meta.sort_key.sort_key_offset != INVALID_METALIB_VALUE {
        path_attr(lib, meta, "sortkey"@, meta.sort_key.sort_key_offset, Space::Net)
    } else {
        empty()
    }
}

/// The `sizeinfo` attribute of a struct: the catalogue name of the size's
/// type, else the path of the field holding the size.
pub open spec fn meta_sizeinfo_attr(lib: Metalib, meta: TDRMeta) -> Result<Seq<char>, MetalibError> {
    if meta.size_type.unit_size <= 0 {
        empty()
    } else if meta.size_type.idx_size_type != INVALID_METALIB_VALUE {
        match type_info_spec(meta.size_type.idx_size_type as int) {
            None => Err(MetalibError::UnknownTypeTag { tag: meta.size_type.idx_size_type }),
            Some(ti) => Ok(attr("sizeinfo"@, ti.xml_name@)),
        }
    } else if meta.size_type.n_off != INVALID_METALIB_VALUE {
        path_attr(lib, meta, "sizeinfo"@, meta.size_type.n_off, Space::Net)
    } else {
        empty()
    }
}

/// The attributes that only a struct carries.
#[verifier::opaque]
pub open spec fn meta_struct_xml(lib: Metalib, meta: TDRMeta) -> Result<Seq<char>, MetalibError> {
    if meta.type_ != MetaPrimativeType::STRUCT {
        empty()
    } else {
        let with_align = cat(
            meta_size_attr(lib, meta),
            Ok(
                if meta.custom_align != 1 {
                    attr("align"@, int_text(meta.custom_align as int))
                } else {
                    Seq::empty()
                },
            ),
        );
        let with_indicator = cat(with_align, meta_indicator_attr(lib, meta));
        let with_sizeinfo = cat(with_indicator, meta_sizeinfo_attr(lib, meta));
        let with_sortkey = cat(with_sizeinfo, meta_sortkey_attr(lib, meta));
        cat(with_sortkey, meta_unsupported_check(meta))
    }
}

/// The error of a struct that uses an attribute not reconstructed here.
pub open spec fn meta_unsupported_check(meta: TDRMeta) -> Result<Seq<char>, MetalibError> {
    if meta.primary_key_member_num > 0 && meta.ptr_primary_key_base != INVALID_METALIB_VALUE {
        Err(meta_unsupported(meta, Unsupported::PrimaryKey))
    } else if meta.idx_split_table_factor != INVALID_METALIB_VALUE {
        Err(meta_unsupported(meta, Unsupported::SplitTableFactor))
    } else if meta.split_table_key.h_off != INVALID_METALIB_VALUE {
        Err(meta_unsupported(meta, Unsupported::SplitTableKey))
    } else if meta.split_table_rule_id != 0 {
        Err(meta_unsupported(meta, Unsupported::SplitTableRule))
    } else if meta.ptr_dependon_struct != INVALID_METALIB_VALUE {
        Err(meta_unsupported(meta, Unsupported::DependOnTable))
    } else if meta.flags & META_FLAG_NEED_PREFIX_FOR_UNIQUENAME != 0 {
        Err(meta_unsupported(meta, Unsupported::UniqueEntryName))
    } else {
        empty()
    }
}

/// The lines of the first `n` fields of `meta`.
pub open spec fn meta_entries_xml(lib: Metalib, meta: TDRMeta, n: int) -> Result<
    Seq<char>,
    MetalibError,
>
    decreases n,
{
    if n <= 0 {
        empty()
    } else {
        cat(
            meta_entries_xml(lib, meta, n - 1),
            match entry_xml(lib, meta, meta.entries@[n - 1]) {
                Ok(x) => Ok("\t\t"@ + x + "\n"@),
                Err(e) => Err(e),
            },
        )
    }
}

proof fn lemma_entries_error_stays(lib: Metalib, meta: TDRMeta, k: int, n: int)
    requires
        0 <= k <= n,
        meta_entries_xml(lib, meta, k) is Err,
    ensures
        meta_entries_xml(lib, meta, n) == meta_entries_xml(lib, meta, k),
    decreases n - k,
{
    if k < n {
        lemma_entries_error_stays(lib, meta, k, n - 1);
    }
}

/// The element of a struct or union definition, with one line per field.
#[verifier::opaque]
pub open spec fn meta_xml(lib: Metalib, meta: TDRMeta) -> Result<Seq<char>, MetalibError> {
    match meta_tag(meta) {
        Err(e) => Err(e),
        Ok(tag) => cat(
            cat(
                cat(cat(meta_head_xml(lib, meta, tag), meta_struct_xml(lib, meta)), Ok(">\n"@)),
                meta_entries_xml(lib, meta, meta.entries@.len() as int),
            ),
            Ok("\t</"@ + tag + ">\n"@),
        ),
    }
}

fn meta_head_exec(lib: &Metalib, meta: &TDRMeta, tag: &str) -> (r: Result<String, MetalibError>)
    ensures
        text_of(r) == meta_head_xml(*lib, *meta, tag@),
{
    proof {
        reveal(meta_head_xml);
    }
    let mut out = String::from_str("\t<");
    out.append(tag);
    push_attr(&mut out, "name", meta.name.as_str());
    let version = constant_or_literal(lib, meta.idx_version, meta.base_version)?;
    push_attr(&mut out, "version", version.as_str());
    if meta.flags & META_FLAG_HAS_ID != 0 {
        let id = constant_or_literal(lib, meta.idx_id, meta.id)?;
        push_attr(&mut out, "id", id.as_str());
    }
    let ghost before = out@;
    push_nonempty_attr(&mut out, "cname", meta.chinese_name.as_str());
    push_nonempty_attr(&mut out, "desc", meta.desc.as_str());
    assert(out@ =~= before + (nonempty_attr("cname"@, meta.chinese_name@) + nonempty_attr(
        "desc"@,
        meta.desc@,
    )));
    Ok(out)
}

fn meta_struct_exec(lib: &Metalib, meta: &TDRMeta) -> (r: Result<String, MetalibError>)
    ensures
        text_of(r) == meta_struct_xml(*lib, *meta),
{
    proof {
        reveal(meta_struct_xml);
    }
    let mut out = String::new();
    if meta.type_ != MetaPrimativeType::STRUCT {
        return Ok(out);
    }
    if meta.idx_custom_h_unit_size != INVALID_METALIB_VALUE {
        let size = macro_name_exec(lib, meta.idx_custom_h_unit_size)?;
        push_attr(&mut out, "size", size.as_str());
    } else if meta.custom_h_unit_size > 0 {
        push_attr(&mut out, "size", i64_text(meta.custom_h_unit_size as i64).as_str());
    }
    if meta.custom_align != 1 {
        push_attr(&mut out, "align", i64_text(meta.custom_align as i64).as_str());
    }
    if meta.version_indicator.n_off != INVALID_METALIB_VALUE {
        push_path_attr(
            &mut out,
            lib,
            meta,
            "versionindicator",
            meta.version_indicator.n_off,
            Space::Net,
        )?;
    }
    if meta.size_type.unit_size > 0 {
        if meta.size_type.idx_size_type != INVALID_METALIB_VALUE {
            match type_info(meta.size_type.idx_size_type) {
                None => {
                    return Err(MetalibError::UnknownTypeTag { tag: meta.size_type.idx_size_type });
                },
                Some(ti) => push_attr(&mut out, "sizeinfo", ti.xml_name),
            }
        } else if meta.size_type.n_off != INVALID_METALIB_VALUE {
            push_path_attr(&mut out, lib, meta, "sizeinfo", meta.size_type.n_off, Space::Net)?;
        }
    }
    if meta.sort_key.sort_key_offset != INVALID_METALIB_VALUE {
        push_path_attr(&mut out, lib, meta, "sortkey", meta.sort_key.sort_key_offset, Space::Net)?;
    }
    let ghost before = out@;
    meta_unsupported_exec(meta)?;
    assert(out@ =~= before + Seq::<char>::empty());
    Ok(out)
}

fn meta_unsupported_exec(meta: &TDRMeta) -> (r: Result<(), MetalibError>)
    ensures
        match meta_unsupported_check(*meta) {
            Ok(_) => r is Ok,
            Err(e) => r == Err::<(), MetalibError>(e),
        },
{
    let attribute = if meta.primary_key_member_num > 0 && meta.ptr_primary_key_base
        != INVALID_METALIB_VALUE {
        Unsupported::PrimaryKey
    } else if meta.idx_split_table_factor != INVALID_METALIB_VALUE {
        Unsupported::SplitTableFactor
    } else if meta.split_table_key.h_off != INVALID_METALIB_VALUE {
        Unsupported::SplitTableKey
    } else if meta.split_table_rule_id != 0 {
        Unsupported::SplitTableRule
    } else if meta.ptr_dependon_struct != INVALID_METALIB_VALUE {
        Unsupported::DependOnTable
    } else if meta.flags & META_FLAG_NEED_PREFIX_FOR_UNIQUENAME != 0 {
        Unsupported::UniqueEntryName
    } else {
        return Ok(());
    };
    Err(MetalibError::UnsupportedAttribute { record: meta._offset, attribute })
}

fn meta_entries_exec(metalib: &Metalib, meta: &TDRMeta) -> (r: Result<String, MetalibError>)
    ensures
        text_of(r) == meta_entries_xml(*metalib, *meta, meta.entries@.len() as int),
{
    let mut lines = String::new();
    let mut i: usize = 0;
    while i < meta.entries.len()
        invariant
            i <= meta.entries@.len(),
            meta_entries_xml(*metalib, *meta, i as int) == Ok::<Seq<char>, MetalibError>(lines@),
        decreases meta.entries@.len() - i,
    {
        let line = match dump_tdr_meta_entry_xml(metalib, meta, &meta.entries[i]) {
            Ok(line) => line,
            Err(e) => {
                proof {
                    lemma_entries_error_stays(
                        *metalib,
                        *meta,
                        i as int + 1,
                        meta.entries@.len() as int,
                    );
                }
                return Err(e);
            },
        };
        let ghost before = lines@;
        lines.append("\t\t");
        lines.append(line.as_str());
        lines.append("\n");
        assert(lines@ =~= before + ("\t\t"@ + line@ + "\n"@));
        i = i + 1;
    }
    Ok(lines)
}

/// The XML block of one struct or union definition.
pub fn dump_tdr_meta_xml(metalib: &Metalib, meta: &TDRMeta) -> (r: Result<String, MetalibError>)
    ensures
        text_of(r) == meta_xml(*metalib, *meta),
{
    proof {
        reveal(meta_xml);
    }
    let tag = meta_tag_exec(meta)?;
    let mut out = meta_head_exec(metalib, meta, tag)?;
    let attrs = meta_struct_exec(metalib, meta)?;
    out.append(attrs.as_str());
    out.append(">\n");
    let lines = meta_entries_exec(metalib, meta)?;
    let ghost head = out@;
    out.append(lines.as_str());
    out.append("\t</");
    out.append(tag);
    out.append(">\n");
    assert(out@ =~= head + lines@ + ("\t</"@ + tag@ + ">\n"@));
    Ok(out)
}

/// The lines of the first `n` constants that belong to no group.

pub open spec fn loose_macros_xml(lib: Metalib, n: int) -> Result<Seq<char>, MetalibError>
    decreases n,
{
    if n <= 0 {
        empty()
    } else {
        cat(loose_macros_xml(lib, n - 1), match groups_hold(lib.macros@, lib.macrogroups@, lib.macros@[n - 1]._offset, 0) {
                Err(e) => Err(e),
                Ok(true) => empty(),
                Ok(false) => Ok("\t"@ + macro_xml(lib.macros@[n - 1]) + "\n"@),
            })
    }
}

proof fn lemma_loose_macros_xml_error_stays(lib: Metalib, k: int, n: int)
    requires
        0 <= k <= n,
        loose_macros_xml(lib, k) is Err,
    ensures
        loose_macros_xml(lib, n) == loose_macros_xml(lib, k),
    decreases n - k,
{
    if k < n {
        lemma_loose_macros_xml_error_stays(lib, k, n - 1);
    }
}

/// The blocks of the first `n` constant groups.

pub open spec fn macrogroups_xml(lib: Metalib, n: int) -> Result<Seq<char>, MetalibError>
    decreases n,
{
    if n <= 0 {
        empty()
    } else {
        cat(macrogroups_xml(lib, n - 1), match macrogroup_xml(lib, lib.macrogroups@[n - 1]) {
                Ok(x) => Ok(x + "\n"@),
                Err(e) => Err(e),
            })
    }
}

proof fn lemma_macrogroups_xml_error_stays(lib: Metalib, k: int, n: int)
    requires
        0 <= k <= n,
        macrogroups_xml(lib, k) is Err,
    ensures
        macrogroups_xml(lib, n) == macrogroups_xml(lib, k),
    decreases n - k,
{
    if k < n {
        lemma_macrogroups_xml_error_stays(lib, k, n - 1);
    }
}

/// The blocks of the first `n` definitions.

pub open spec fn metas_xml(lib: Metalib, n: int) -> Result<Seq<char>, MetalibError>
    decreases n,
{
    if n <= 0 {
        empty()
    } else {
        cat(metas_xml(lib, n - 1), match meta_xml(lib, lib.metas@[n - 1]) {
                Ok(x) => Ok(x + "\n"@),
                Err(e) => Err(e),
            })
    }
}

proof fn lemma_metas_xml_error_stays(lib: Metalib, k: int, n: int)
    requires
        0 <= k <= n,
        metas_xml(lib, k) is Err,
    ensures
        metas_xml(lib, n) == metas_xml(lib, k),
    decreases n - k,
{
    if k < n {
        lemma_metas_xml_error_stays(lib, k, n - 1);
    }
}

/// The XML declaration and the opening `<metalib ...>` line.
pub open spec fn metalib_head_xml(lib: Metalib) -> Seq<char> {
    let h = lib.header;
    "<?xml version=\"1.0\" encoding=\"UTF8\" standalone=\"yes\" ?>"@ + "\n"@ + "<metalib"@ + attr(
        "tagsetversion"@,
        nat_text(h.xml_tag_set_ver as nat),
    ) + attr("name"@, h.name@) + attr("version"@, nat_text(h.version as nat)) + metalib_id_attr(
        h,
    ) + ">"@ + "\n"@
}

/// The `id` attribute of the metalib, unless its id is -1.
pub open spec fn metalib_id_attr(h: MetalibHeader) -> Seq<char> {
    if h.id != INVALID_METALIB_VALUE {
        attr("id"@, int_text(h.id as int))
    } else {
        Seq::empty()
    }
}

/// The whole document: the constants outside groups, then the groups, then
/// the definitions, each in table order.
pub open spec fn metalib_xml(lib: Metalib) -> Result<Seq<char>, MetalibError> {
    cat(
        cat(
            cat(
                cat(Ok(metalib_head_xml(lib)), loose_macros_xml(lib, lib.macros@.len() as int)),
                macrogroups_xml(lib, lib.macrogroups@.len() as int),
            ),
            metas_xml(lib, lib.metas@.len() as int),
        ),
        Ok("</metalib>\n"@),
    )
}

fn loose_macros_exec(metalib: &Metalib) -> (r: Result<String, MetalibError>)
    ensures
        text_of(r) == loose_macros_xml(*metalib, metalib.macros@.len() as int),
{
    let mut lines = String::new();
    let mut i: usize = 0;
    while i < metalib.macros.len()
        invariant
            i <= metalib.macros@.len(),
            loose_macros_xml(*metalib, i as int) == Ok::<Seq<char>, MetalibError>(lines@),
        decreases metalib.macros@.len() - i,
    {
        let grouped = match metalib.is_macro_in_group(&metalib.macros[i]) {
            Ok(grouped) => grouped,
            Err(e) => {
                proof {
                    lemma_loose_macros_xml_error_stays(
                        *metalib,
                        i as int + 1,
                        metalib.macros@.len() as int,
                    );
                }
                return Err(e);
            },
        };
        if !grouped {
            let ghost before = lines@;
            lines.append("\t");
            lines.append(dump_tdr_macro_xml(&metalib.macros[i]).as_str());
            lines.append("\n");
            assert(lines@ =~= before + ("\t"@ + macro_xml(metalib.macros@[i as int]) + "\n"@));
        } else {
            assert(lines@ =~= lines@ + Seq::<char>::empty());
        }
        i = i + 1;
    }
    Ok(lines)
}

fn macrogroups_exec(metalib: &Metalib) -> (r: Result<String, MetalibError>)
    ensures
        text_of(r) == macrogroups_xml(*metalib, metalib.macrogroups@.len() as int),
{
    let mut lines = String::new();
    let mut i: usize = 0;
    while i < metalib.macrogroups.len()
        invariant
            i <= metalib.macrogroups@.len(),
            macrogroups_xml(*metalib, i as int) == Ok::<Seq<char>, MetalibError>(lines@),
        decreases metalib.macrogroups@.len() - i,
    {
        let block = match dump_tdr_macrogroup_xml(metalib, &metalib.macrogroups[i]) {
            Ok(block) => block,
            Err(e) => {
                proof {
                    lemma_macrogroups_xml_error_stays(
                        *metalib,
                        i as int + 1,
                        metalib.macrogroups@.len() as int,
                    );
                }
                return Err(e);
            },
        };
        let ghost before = lines@;
        lines.append(block.as_str());
        lines.append("\n");
        assert(lines@ =~= before + (block@ + "\n"@));
        i = i + 1;
    }
    Ok(lines)
}

fn metas_exec(metalib: &Metalib) -> (r: Result<String, MetalibError>)
    ensures
        text_of(r) == metas_xml(*metalib, metalib.metas@.len() as int),
{
    let mut lines = String::new();
    let mut i: usize = 0;
    while i < metalib.metas.len()
        invariant
            i <= metalib.metas@.len(),
            metas_xml(*metalib, i as int) == Ok::<Seq<char>, MetalibError>(lines@),
        decreases metalib.metas@.len() - i,
    {
        let block = match dump_tdr_meta_xml(metalib, &metalib.metas[i]) {
            Ok(block) => block,
            Err(e) => {
                proof {
                    lemma_metas_xml_error_stays(*metalib, i as int + 1, metalib.metas@.len() as int);
                }
                return Err(e);
            },
        };
        let ghost before = lines@;
        lines.append(block.as_str());
        lines.append("\n");
        assert(lines@ =~= before + (block@ + "\n"@));
        i = i + 1;
    }
    Ok(lines)
}

/// The XML schema text of a whole metalib.
pub fn dump_metalib_xml(metalib: &Metalib) -> (r: Result<String, MetalibError>)
    ensures
        text_of(r) == metalib_xml(*metalib),
{
    let header = &metalib.header;
    let mut out = String::from_str("<?xml version=\"1.0\" encoding=\"UTF8\" standalone=\"yes\" ?>");
    out.append("\n");
    out.append("<metalib");
    push_attr(&mut out, "tagsetversion", u64_text(header.xml_tag_set_ver as u64).as_str());
    push_attr(&mut out, "name", header.name.as_str());
    push_attr(&mut out, "version", u64_text(header.version as u64).as_str());
    if header.id != INVALID_METALIB_VALUE {
        push_attr(&mut out, "id", i64_text(header.id as i64).as_str());
    }
    out.append(">");
    out.append("\n");
    assert(out@ == metalib_head_xml(*metalib));
    let loose = loose_macros_exec(metalib)?;
    out.append(loose.as_str());
    let groups = macrogroups_exec(metalib)?;
    out.append(groups.as_str());
    let metas = metas_exec(metalib)?;
    out.append(metas.as_str());
    out.append("</metalib>\n");
    Ok(out)
}

/// Exports a decoded metalib as its XML schema text.
pub fn export_metalib_xml(metalib: &Metalib) -> (r: Result<String, MetalibError>)
    ensures
        text_of(r) == metalib_xml(*metalib),
{
    dump_metalib_xml(metalib)
}

/// Every attribute whose backing offset or index is the sentinel -1 is left
/// out: its piece of the output is empty, never a rendering of -1, and it
/// raises no error.
pub proof fn lemma_absent_attributes_omitted(lib: Metalib, meta: TDRMeta, e: TDRMetaEntry)
    ensures
        e.idx_id == INVALID_METALIB_VALUE && e.id == INVALID_METALIB_VALUE ==> entry_id_attr(
            lib,
            e,
        ) == empty(),
        e.idx_custom_h_unit_size == INVALID_METALIB_VALUE && e.custom_h_unit_size <= 0
            ==> entry_size_attr(lib, e) == empty(),
        e.referer.h_off == INVALID_METALIB_VALUE ==> entry_refer_attr(lib, meta, e) == empty(),
        e.ptr_default_val == INVALID_METALIB_VALUE ==> entry_default_attr(e) == Seq::<
            char,
        >::empty(),
        e.size_info.idx_size_type == INVALID_METALIB_VALUE && e.size_info.n_off
            == INVALID_METALIB_VALUE ==> entry_sizeinfo_attr(lib, meta, e) == empty(),
        e.selector.h_off == INVALID_METALIB_VALUE ==> entry_select_attr(lib, meta, e) == empty(),
        e.ptr_macros_group == INVALID_METALIB_VALUE ==> entry_bind_attr(lib, e) == empty(),
        e.ptr_custom_attr == INVALID_METALIB_VALUE ==> entry_custom_attr_check(e) == empty(),
        e.ptr_meta == INVALID_METALIB_VALUE && e.idx_type == INVALID_METALIB_VALUE
            ==> entry_type_value(lib, e) is Ok && (entry_type_value(lib, e)->Ok_0).len() <= 1,
        meta.idx_custom_h_unit_size == INVALID_METALIB_VALUE && meta.custom_h_unit_size <= 0
            ==> meta_size_attr(lib, meta) == empty(),
        meta.version_indicator.n_off == INVALID_METALIB_VALUE ==> meta_indicator_attr(lib, meta)
            == empty(),
        meta.size_type.idx_size_type == INVALID_METALIB_VALUE && meta.size_type.n_off
            == INVALID_METALIB_VALUE ==> meta_sizeinfo_attr(lib, meta) == empty(),
        meta.sort_key.sort_key_offset == INVALID_METALIB_VALUE ==> meta_sortkey_attr(lib, meta)
            == empty(),
        lib.header.id == INVALID_METALIB_VALUE ==> metalib_id_attr(lib.header) == Seq::<
            char,
        >::empty(),
{
    reveal_strlit("*");
    reveal_strlit("@");
    if e.ptr_meta == INVALID_METALIB_VALUE && e.idx_type == INVALID_METALIB_VALUE {
        assert(("*"@ + Seq::<char>::empty()).len() == 1);
        assert(("@"@ + Seq::<char>::empty()).len() == 1);
    }
}

/// `x` occurs as a contiguous part of `s`.
pub open spec fn occurs_in(x: Seq<char>, s: Seq<char>) -> bool {
    exists|p: Seq<char>, q: Seq<char>| s == p + x + q
}

proof fn lemma_occurs_self(x: Seq<char>)
    ensures
        occurs_in(x, x),
{
    assert(x =~= Seq::<char>::empty() + x + Seq::<char>::empty());
}

proof fn lemma_occurs_trans(x: Seq<char>, y: Seq<char>, z: Seq<char>)
    requires
        occurs_in(x, y),
        occurs_in(y, z),
    ensures
        occurs_in(x, z),
{
    let (p, q) = choose|p: Seq<char>, q: Seq<char>| y == p + x + q;
    let (p2, q2) = choose|p: Seq<char>, q: Seq<char>| z == p + y + q;
    assert(z =~= (p2 + p) + x + (q + q2));
}

/// Both parts of a successful concatenation occur in whatever it occurs in.
proof fn lemma_parts_occur(a: Result<Seq<char>, MetalibError>, b: Result<Seq<char>, MetalibError>, s: Seq<char>)
    requires
        cat(a, b) is Ok,
        occurs_in(cat(a, b)->Ok_0, s),
    ensures
        a is Ok,
        b is Ok,
        occurs_in(a->Ok_0, s),
        occurs_in(b->Ok_0, s),
{
    let x = a->Ok_0;
    let y = b->Ok_0;
    assert(x + y =~= Seq::<char>::empty() + x + y);
    assert(x + y =~= x + y + Seq::<char>::empty());
    lemma_occurs_trans(x, x + y, s);
    lemma_occurs_trans(y, x + y, s);
}

/// In the text of a field that renders without error, each attribute
/// appears with the value its rules give: `count` (for an array) and
/// `version` (when it differs from the definition's) as a constant's name
/// or the literal, `id`, `minid`/`maxid`, `refer` and `select` as their
/// pieces say.
pub proof fn lemma_entry_attributes_occur(lib: Metalib, meta: TDRMeta, e: TDRMetaEntry, s: Seq<char>)
    requires
        entry_xml(lib, meta, e) == Ok::<Seq<char>, MetalibError>(s),
    ensures
        e.count > 1 ==> constant_or_literal_spec(lib, e.idx_count, e.count) is Ok && occurs_in(
            attr("count"@, constant_or_literal_spec(lib, e.idx_count, e.count)->Ok_0),
            s,
        ),
        e.version != meta.base_version ==> constant_or_literal_spec(lib, e.idx_version, e.version)
            is Ok && occurs_in(
            attr("version"@, constant_or_literal_spec(lib, e.idx_version, e.version)->Ok_0),
            s,
        ),
        entry_id_attr(lib, e) is Ok && occurs_in(entry_id_attr(lib, e)->Ok_0, s),
        entry_bounds_attrs(lib, e) is Ok && occurs_in(entry_bounds_attrs(lib, e)->Ok_0, s),
        entry_refer_attr(lib, meta, e) is Ok && occurs_in(entry_refer_attr(lib, meta, e)->Ok_0, s),
        entry_select_attr(lib, meta, e) is Ok && occurs_in(entry_select_attr(lib, meta, e)->Ok_0, s),
{
    reveal(entry_xml);
    reveal(entry_head_xml);
    reveal(entry_middle_xml);
    reveal(entry_tail_xml);
    lemma_occurs_self(s);
    let head = entry_head_xml(lib, meta, e);
    let middle = entry_middle_xml(lib, meta, e);
    let tail = entry_tail_xml(lib, e);
    lemma_parts_occur(cat(cat(head, middle), tail), Ok("/>"@), s);
    lemma_parts_occur(cat(head, middle), tail, s);
    lemma_parts_occur(head, middle, s);
    // The head, piece by piece.
    let h0 = Ok("<entry"@ + attr("name"@, e.name@));
    let h1 = cat(h0, attr_of("type"@, entry_type_value(lib, e)));
    let c = if e.count > 1 {
        attr_of("count"@, constant_or_literal_spec(lib, e.idx_count, e.count))
    } else {
        empty()
    };
    let h2 = cat(h1, c);
    let v = if e.version != meta.base_version {
        attr_of("version"@, constant_or_literal_spec(lib, e.idx_version, e.version))
    } else {
        empty()
    };
    let h3 = cat(h2, v);
    let h4 = cat(h3, entry_id_attr(lib, e));
    let h5 = cat(h4, entry_size_attr(lib, e));
    let flags = Ok(
        nonempty_attr("cname"@, e.chinese_name@) + nonempty_attr("desc"@, e.desc@) + (
        if e.db_flag & DB_FLAG_UNIQUE != 0 {
            attr("unique"@, "true"@)
        } else {
            Seq::empty()
        }) + (if e.db_flag & DB_FLAG_NOT_NULL != 0 {
            attr("notnull"@, "true"@)
        } else {
            Seq::empty()
        }),
    );
    assert(head == cat(h5, flags));
    lemma_parts_occur(h5, flags, s);
    lemma_parts_occur(h4, entry_size_attr(lib, e), s);
    lemma_parts_occur(h3, entry_id_attr(lib, e), s);
    lemma_parts_occur(h2, v, s);
    lemma_parts_occur(h1, c, s);
    // The middle.
    let m1 = cat(entry_refer_attr(lib, meta, e), Ok(entry_default_attr(e)));
    let m2 = cat(m1, entry_sizeinfo_attr(lib, meta, e));
    let m3 = cat(m2, Ok(entry_sort_attr(e)));
    let m4 = cat(m3, entry_io_attr(e));
    assert(middle == cat(m4, entry_select_attr(lib, meta, e)));
    lemma_parts_occur(m4, entry_select_attr(lib, meta, e), s);
    lemma_parts_occur(m3, entry_io_attr(e), s);
    lemma_parts_occur(m2, Ok(entry_sort_attr(e)), s);
    lemma_parts_occur(m1, entry_sizeinfo_attr(lib, meta, e), s);
    lemma_parts_occur(entry_refer_attr(lib, meta, e), Ok(entry_default_attr(e)), s);
    // The tail.
    let ext = if e.db_flag & DB_FLAG_EXTEND_TO_TABLE != 0 {
        Err(unsupported(e, Unsupported::ExtendToTable))
    } else {
        empty()
    };
    let t2 = cat(entry_bounds_attrs(lib, e), ext);
    let t3 = cat(t2, entry_bind_attr(lib, e));
    let auto = if e.db_flag & DB_FLAG_AUTO_INCREMENT != 0 {
        Err(unsupported(e, Unsupported::AutoIncrement))
    } else {
        empty()
    };
    let t4 = cat(t3, auto);
    assert(tail == cat(t4, entry_custom_attr_check(e)));
    lemma_parts_occur(t4, entry_custom_attr_check(e), s);
    lemma_parts_occur(t3, auto, s);
    lemma_parts_occur(t2, entry_bind_attr(lib, e), s);
    lemma_parts_occur(entry_bounds_attrs(lib, e), ext, s);
}

/// A constant-backed attribute that is emitted must have its index inside
/// the constant table: otherwise the field fails to render, and no raw
/// index is ever written.
pub proof fn lemma_bad_constant_index_fails(lib: Metalib, meta: TDRMeta, e: TDRMetaEntry)
    requires
        (e.count > 1 && e.idx_count != INVALID_METALIB_VALUE && !(0 <= e.idx_count
            < lib.macros@.len())) || (e.version != meta.base_version && e.idx_version
            != INVALID_METALIB_VALUE && !(0 <= e.idx_version < lib.macros@.len())) || (e.idx_id
            != INVALID_METALIB_VALUE && !(0 <= e.idx_id < lib.macros@.len())) || (
        e.idx_custom_h_unit_size != INVALID_METALIB_VALUE && !(0 <= e.idx_custom_h_unit_size
            < lib.macros@.len())) || (e.flag & ENTRY_FLAG_HAS_MAXMIN_ID != 0 && ((e.min_id_idx
            != INVALID_METALIB_VALUE && !(0 <= e.min_id_idx < lib.macros@.len())) || (
        e.max_id_idx != INVALID_METALIB_VALUE && !(0 <= e.max_id_idx < lib.macros@.len())))),
    ensures
        entry_xml(lib, meta, e) is Err,
{
    reveal(entry_xml);
    reveal(entry_head_xml);
    reveal(entry_tail_xml);
}

} // verus!
