use mldec::decode::read_metalib;
use mldec::error::{MetalibError, Space, Unsupported};
use mldec::model::{DefaultValue, Metalib};
use mldec::resolve::{resolve_meta_entry_name_by_host_offset, resolve_meta_entry_name_by_net_offset};
use mldec::decimal::{i64_text, u64_text};
use mldec::types::{type_info, MetaPrimativeType};
use mldec::xml::{
    constant_or_literal, dump_tdr_macro_xml, dump_tdr_macrogroup_xml, dump_tdr_meta_entry_xml,
    export_metalib_xml,
};

// Field record layout (offsets within the 180-byte record).
const E_ID: usize = 0;
const E_VERSION: usize = 4;
const E_TYPE: usize = 8;
const E_NAME: usize = 12;
const E_H_UNIT: usize = 24;
const E_N_UNIT: usize = 28;
const E_COUNT: usize = 36;
const E_N_OFF: usize = 40;
const E_H_OFF: usize = 44;
const E_IDX_ID: usize = 48;
const E_IDX_VERSION: usize = 52;
const E_IDX_COUNT: usize = 56;
const E_IDX_TYPE: usize = 60;
const E_IDX_CUSTOM: usize = 64;
const E_DB_FLAG: usize = 70;
const E_SIZE_INFO: usize = 72;
const E_REFERER: usize = 88;
const E_SELECTOR: usize = 100;
const E_IO: usize = 112;
const E_IDX_IO: usize = 116;
const E_PTR_META: usize = 120;
const E_MAX_ID_IDX: usize = 132;
const E_MIN_ID_IDX: usize = 136;
const E_DESC: usize = 144;
const E_CNAME: usize = 148;
const E_PTR_DEFAULT: usize = 152;
const E_PTR_GROUP: usize = 156;
const E_PTR_CUSTOM: usize = 160;

// Definition record layout (offsets within the 184-byte record).
const M_TYPE: usize = 16;
const M_ENTRIES: usize = 44;
const M_IDX_CUSTOM: usize = 36;
const M_IDX_ID: usize = 68;
const M_IDX_VERSION: usize = 76;
const M_CUSTOM_ALIGN: usize = 80;
const M_SIZE_TYPE: usize = 92;
const M_VERSION_INDICATOR: usize = 108;
const M_SORT_KEY: usize = 120;
const M_NAME: usize = 132;
const M_DESC: usize = 136;
const M_CNAME: usize = 140;
const M_IDX_SPLIT: usize = 152;
const M_SPLIT_KEY: usize = 156;
const M_PK_BASE: usize = 164;
const M_DEPENDON: usize = 168;

const TAG_UNION: i32 = 0;
const TAG_STRUCT: i32 = 1;
const TAG_INT: i32 = 7;
const TAG_FLOAT: i32 = 17;
const ROW_INT: i32 = 6;
const ROW_FLOAT: i32 = 18;

fn set_i32(rec: &mut [u8], off: usize, v: i32) {
    rec[off..off + 4].copy_from_slice(&v.to_le_bytes());
}

struct Body {
    b: Vec<u8>,
}

impl Body {
    fn new() -> Body {
        Body { b: Vec::new() }
    }

    fn pos(&self) -> i32 {
        self.b.len() as i32
    }

    fn text(&mut self, s: &str) -> i32 {
        let at = self.pos();
        self.b.extend_from_slice(s.as_bytes());
        self.b.push(0);
        at
    }

    fn put(&mut self, bytes: &[u8]) -> i32 {
        let at = self.pos();
        self.b.extend_from_slice(bytes);
        at
    }
}

fn macro_rec(name: i32, value: i32, desc: i32) -> Vec<u8> {
    let mut r = vec![0u8; 16];
    set_i32(&mut r, 0, name);
    set_i32(&mut r, 4, value);
    set_i32(&mut r, 8, desc);
    r
}

/// A field with every optional attribute absent.
fn entry_rec(name: i32, tag: i32, idx_type: i32, off: i32, size: i32) -> Vec<u8> {
    let mut r = vec![0u8; 180];
    set_i32(&mut r, E_ID, -1);
    set_i32(&mut r, E_VERSION, 1);
    set_i32(&mut r, E_TYPE, tag);
    set_i32(&mut r, E_NAME, name);
    set_i32(&mut r, E_H_UNIT, size);
    set_i32(&mut r, E_N_UNIT, size);
    set_i32(&mut r, E_COUNT, 1);
    set_i32(&mut r, E_N_OFF, off);
    set_i32(&mut r, E_H_OFF, off);
    for f in [E_IDX_ID, E_IDX_VERSION, E_IDX_COUNT, E_IDX_CUSTOM, E_IDX_IO, E_PTR_META] {
        set_i32(&mut r, f, -1);
    }
    set_i32(&mut r, E_IDX_TYPE, idx_type);
    set_i32(&mut r, E_SIZE_INFO, -1);
    set_i32(&mut r, E_SIZE_INFO + 4, -1);
    set_i32(&mut r, E_SIZE_INFO + 12, -1);
    set_i32(&mut r, E_REFERER + 4, -1);
    set_i32(&mut r, E_REFERER + 8, -1);
    set_i32(&mut r, E_SELECTOR + 4, -1);
    set_i32(&mut r, E_SELECTOR + 8, -1);
    set_i32(&mut r, E_MAX_ID_IDX, -1);
    set_i32(&mut r, E_MIN_ID_IDX, -1);
    for f in [E_DESC, E_CNAME, E_PTR_DEFAULT, E_PTR_GROUP, E_PTR_CUSTOM] {
        set_i32(&mut r, f, -1);
    }
    r
}

/// A struct or union definition with every optional attribute absent.
fn meta_rec(name: i32, tag: i32, entries: i32) -> Vec<u8> {
    let mut r = vec![0u8; 184];
    set_i32(&mut r, 4, -1);
    set_i32(&mut r, 8, 1);
    set_i32(&mut r, 12, 1);
    set_i32(&mut r, M_TYPE, tag);
    set_i32(&mut r, M_IDX_CUSTOM, -1);
    set_i32(&mut r, M_ENTRIES, entries);
    set_i32(&mut r, M_IDX_ID, -1);
    set_i32(&mut r, 72, -1);
    set_i32(&mut r, M_IDX_VERSION, -1);
    set_i32(&mut r, M_CUSTOM_ALIGN, 1);
    set_i32(&mut r, 84, 1);
    for f in [M_SIZE_TYPE, M_SIZE_TYPE + 4, M_SIZE_TYPE + 12] {
        set_i32(&mut r, f, -1);
    }
    set_i32(&mut r, M_VERSION_INDICATOR, -1);
    set_i32(&mut r, M_VERSION_INDICATOR + 4, -1);
    for f in [M_SORT_KEY, M_SORT_KEY + 4, M_SORT_KEY + 8] {
        set_i32(&mut r, f, -1);
    }
    set_i32(&mut r, M_NAME, name);
    set_i32(&mut r, M_DESC, -1);
    set_i32(&mut r, M_CNAME, -1);
    for f in [M_IDX_SPLIT, M_SPLIT_KEY, M_SPLIT_KEY + 4, M_PK_BASE, M_DEPENDON] {
        set_i32(&mut r, f, -1);
    }
    r
}

struct Tables {
    macros_at: i32,
    macros: i32,
    index_at: i32,
    metas_at: i32,
    metas: i32,
    groups_at: i32,
    groups: i32,
}

/// The header followed by `body`.
fn blob(body: &Body, name: &str, t: &Tables) -> Vec<u8> {
    let mut h = vec![0u8; 0x114];
    h[0..2].copy_from_slice(&0x0102u16.to_le_bytes());
    set_i32(&mut h, 8, (0x114 + body.b.len()) as i32);
    set_i32(&mut h, 28, 7);
    set_i32(&mut h, 32, 1);
    set_i32(&mut h, 44, t.metas);
    set_i32(&mut h, 52, t.macros);
    set_i32(&mut h, 60, t.groups);
    set_i32(&mut h, 72, 3);
    set_i32(&mut h, 76, t.macros_at);
    set_i32(&mut h, 80, t.index_at);
    set_i32(&mut h, 84, t.index_at);
    set_i32(&mut h, 88, t.index_at);
    set_i32(&mut h, 92, t.metas_at);
    set_i32(&mut h, 116, t.groups_at);
    h[148..148 + name.len()].copy_from_slice(name.as_bytes());
    h.extend_from_slice(&body.b);
    h
}

/// One index region large enough for `n` definitions.
fn index_region(body: &mut Body, n: usize) -> i32 {
    body.put(&vec![0u8; 8 * n])
}

fn decode(data: &[u8]) -> Metalib {
    read_metalib(data, 0).expect("decodes")
}

/// A library with the constant MAXNUM = 10 and a struct `Item`
/// { count: int; items: Inner[MAXNUM] }, Inner { a: int; b: int }.
fn items_library() -> Vec<u8> {
    let mut body = Body::new();
    let s_maxnum = body.text("MAXNUM");
    let s_inner = body.text("Inner");
    let s_a = body.text("a");
    let s_b = body.text("b");
    let s_item = body.text("Item");
    let s_count = body.text("count");
    let s_items = body.text("items");
    let macros_at = body.put(&macro_rec(s_maxnum, 10, -1));
    let index_at = index_region(&mut body, 2);
    let metas_at = body.pos();
    let inner_at = body.put(&meta_rec(s_inner, TAG_STRUCT, 2));
    body.put(&entry_rec(s_a, TAG_INT, ROW_INT, 0, 4));
    body.put(&entry_rec(s_b, TAG_INT, ROW_INT, 4, 4));
    body.put(&meta_rec(s_item, TAG_STRUCT, 2));
    body.put(&entry_rec(s_count, TAG_INT, ROW_INT, 0, 4));
    let mut items = entry_rec(s_items, TAG_STRUCT, 1, 4, 8);
    set_i32(&mut items, E_PTR_META, inner_at);
    set_i32(&mut items, E_COUNT, 10);
    set_i32(&mut items, E_IDX_COUNT, 0);
    body.put(&items);
    let groups_at = body.pos();
    let t = Tables { macros_at, macros: 1, index_at, metas_at, metas: 2, groups_at, groups: 0 };
    blob(&body, "items", &t)
}

#[test]
fn scenario_standalone_constant() {
    let lib = decode(&items_library());
    let xml = export_metalib_xml(&lib).unwrap();
    assert!(xml.contains("\t<macro name=\"MAXNUM\" value=\"10\" />\n"));
    assert!(!xml.contains("desc="));
}

#[test]
fn scenario_count_backed_by_constant() {
    let lib = decode(&items_library());
    let xml = export_metalib_xml(&lib).unwrap();
    assert!(xml.contains("<entry name=\"items\" type=\"Inner\" count=\"MAXNUM\"/>"));
    assert!(!xml.contains("count=\"10\""));
}

#[test]
fn whole_document_of_items_library() {
    let lib = decode(&items_library());
    let xml = export_metalib_xml(&lib).unwrap();
    let expected = "<?xml version=\"1.0\" encoding=\"UTF8\" standalone=\"yes\" ?>\n\
<metalib tagsetversion=\"1\" name=\"items\" version=\"3\" id=\"7\">\n\
\t<macro name=\"MAXNUM\" value=\"10\" />\n\
\t<struct name=\"Inner\" version=\"1\">\n\
\t\t<entry name=\"a\" type=\"int\"/>\n\
\t\t<entry name=\"b\" type=\"int\"/>\n\
\t</struct>\n\n\
\t<struct name=\"Item\" version=\"1\">\n\
\t\t<entry name=\"count\" type=\"int\"/>\n\
\t\t<entry name=\"items\" type=\"Inner\" count=\"MAXNUM\"/>\n\
\t</struct>\n\n\
</metalib>\n";
    assert_eq!(xml, expected);
}

/// A union `Choice` { x: int; y: int } and a struct `Msg` { kind: int; body: Choice select=kind }.
fn selector_library(selector_h_off: i32) -> Vec<u8> {
    let mut body = Body::new();
    let s_choice = body.text("Choice");
    let s_x = body.text("x");
    let s_y = body.text("y");
    let s_msg = body.text("Msg");
    let s_kind = body.text("kind");
    let s_body = body.text("body");
    let index_at = index_region(&mut body, 2);
    let metas_at = body.pos();
    let choice_at = body.put(&meta_rec(s_choice, TAG_UNION, 2));
    body.put(&entry_rec(s_x, TAG_INT, ROW_INT, 0, 4));
    body.put(&entry_rec(s_y, TAG_INT, ROW_INT, 0, 4));
    body.put(&meta_rec(s_msg, TAG_STRUCT, 2));
    body.put(&entry_rec(s_kind, TAG_INT, ROW_INT, 0, 4));
    let mut u = entry_rec(s_body, TAG_UNION, 0, 4, 4);
    set_i32(&mut u, E_PTR_META, choice_at);
    set_i32(&mut u, E_SELECTOR + 4, selector_h_off);
    body.put(&u);
    let groups_at = body.pos();
    let t = Tables { macros_at: 0, macros: 0, index_at, metas_at, metas: 2, groups_at, groups: 0 };
    blob(&body, "sel", &t)
}

#[test]
fn scenario_union_selector() {
    let lib = decode(&selector_library(0));
    let xml = export_metalib_xml(&lib).unwrap();
    assert!(xml.contains("<entry name=\"body\" type=\"Choice\" select=\"kind\"/>"));
    assert!(xml.contains("\t<union name=\"Choice\" version=\"1\">\n"));
}

#[test]
fn scenario_float_default() {
    let mut body = Body::new();
    let s_s = body.text("S");
    let s_ratio = body.text("ratio");
    let default_at = body.put(&1.5f32.to_le_bytes());
    let index_at = index_region(&mut body, 1);
    let metas_at = body.put(&meta_rec(s_s, TAG_STRUCT, 1));
    let mut f = entry_rec(s_ratio, TAG_FLOAT, ROW_FLOAT, 0, 4);
    set_i32(&mut f, E_PTR_DEFAULT, default_at);
    body.put(&f);
    let groups_at = body.pos();
    let t = Tables { macros_at: 0, macros: 0, index_at, metas_at, metas: 1, groups_at, groups: 0 };
    let mut lib = decode(&blob(&body, "f", &t));
    let entry = &mut lib.metas[0].entries[0];
    assert_eq!(entry.default_value, DefaultValue::Float(1.5f32.to_bits()));
    if let DefaultValue::Float(bits) = entry.default_value {
        entry.default_value_string = format!("{:?}", f32::from_bits(bits));
    }
    let xml = export_metalib_xml(&lib).unwrap();
    assert!(xml.contains("<entry name=\"ratio\" type=\"float\" default=\"1.5\"/>"));
}

/// `Outer` { head: int; inner: Inner } with Inner { a: short @0 size 2; b: int @4 },
/// where `Outer` claims a version indicator at packed offset `indicator`.
fn nested_library(indicator: i32) -> Vec<u8> {
    let mut body = Body::new();
    let s_inner = body.text("Inner");
    let s_a = body.text("a");
    let s_b = body.text("b");
    let s_outer = body.text("Outer");
    let s_head = body.text("head");
    let s_in = body.text("inner");
    let index_at = index_region(&mut body, 2);
    let metas_at = body.pos();
    let inner_at = body.put(&meta_rec(s_inner, TAG_STRUCT, 2));
    body.put(&entry_rec(s_a, 5, 4, 0, 2));
    body.put(&entry_rec(s_b, TAG_INT, ROW_INT, 4, 4));
    let mut outer = meta_rec(s_outer, TAG_STRUCT, 2);
    set_i32(&mut outer, M_VERSION_INDICATOR, indicator);
    body.put(&outer);
    body.put(&entry_rec(s_head, TAG_INT, ROW_INT, 0, 4));
    let mut inner = entry_rec(s_in, TAG_STRUCT, 1, 4, 8);
    set_i32(&mut inner, E_PTR_META, inner_at);
    body.put(&inner);
    let groups_at = body.pos();
    let t = Tables { macros_at: 0, macros: 0, index_at, metas_at, metas: 2, groups_at, groups: 0 };
    blob(&body, "nested", &t)
}

#[test]
fn scenario_offset_inside_nested_struct_fails() {
    let lib = decode(&nested_library(6));
    let outer = &lib.metas[1];
    assert_eq!(
        resolve_meta_entry_name_by_net_offset(&lib, outer, 6),
        Err(MetalibError::ResolutionFailed { target: 6, space: Space::Net })
    );
    assert_eq!(
        export_metalib_xml(&lib),
        Err(MetalibError::ResolutionFailed { target: 6, space: Space::Net })
    );
}

#[test]
fn nested_leaf_resolves_to_dotted_path() {
    let lib = decode(&nested_library(8));
    let outer = &lib.metas[1];
    assert_eq!(resolve_meta_entry_name_by_net_offset(&lib, outer, 0).unwrap(), "head");
    assert_eq!(resolve_meta_entry_name_by_net_offset(&lib, outer, 4).unwrap(), "inner.a");
    assert_eq!(resolve_meta_entry_name_by_host_offset(&lib, outer, 8).unwrap(), "inner.b");
    let xml = export_metalib_xml(&lib).unwrap();
    assert!(xml.contains("<struct name=\"Outer\" version=\"1\" versionindicator=\"inner.b\">"));
}

#[test]
fn offset_inside_leaf_is_not_found() {
    let lib = decode(&nested_library(8));
    let outer = &lib.metas[1];
    for target in [1, 2, 3, 5, 9, 10, 11] {
        assert_eq!(
            resolve_meta_entry_name_by_host_offset(&lib, outer, target),
            Err(MetalibError::ResolutionFailed { target, space: Space::Host })
        );
    }
    assert!(resolve_meta_entry_name_by_host_offset(&lib, outer, 12).is_err());
}

#[test]
fn decoding_twice_gives_the_same_model() {
    let data = items_library();
    let first = decode(&data);
    let second = decode(&data);
    assert_eq!(format!("{:?}", first), format!("{:?}", second));
    assert_eq!(export_metalib_xml(&first), export_metalib_xml(&second));
}

#[test]
fn absent_attributes_are_omitted() {
    let xml = export_metalib_xml(&decode(&nested_library(-1))).unwrap();
    assert!(!xml.contains("-1"));
    for attr in ["refer=", "select=", "default=", "sizeinfo=", "bindmacrosgroup=", "id=\"", "versionindicator=", "sortkey=", "size="] {
        assert!(!xml.contains(&format!("<struct name=\"Outer\" version=\"1\" {attr}")));
        assert!(!xml.contains(&format!("\t\t<entry name=\"head\" type=\"int\" {attr}")));
    }
    assert!(xml.contains("\t\t<entry name=\"head\" type=\"int\"/>\n"));
}

/// One struct `S` with one field built by `field`, and the constants
/// LOW = 1, HIGH = 9 (desc "upper"), the latter in group `G`.
fn one_field_library(field: impl Fn(&mut Body, i32) -> Vec<u8>) -> Vec<u8> {
    let mut body = Body::new();
    let s_low = body.text("LOW");
    let s_high = body.text("HIGH");
    let s_upper = body.text("upper");
    let s_s = body.text("S");
    let s_bounds = body.text("bounds");
    let macros_at = body.put(&macro_rec(s_low, 1, -1));
    body.put(&macro_rec(s_high, 9, s_upper));
    let index_at = index_region(&mut body, 1);
    let mut group = vec![0u8; 148];
    set_i32(&mut group, 0, 1);
    set_i32(&mut group, 4, 1);
    set_i32(&mut group, 8, s_bounds);
    set_i32(&mut group, 12, 148);
    set_i32(&mut group, 16, 152);
    group[20] = b'G';
    let groups_at = body.put(&group);
    body.put(&1i32.to_le_bytes());
    body.put(&1i32.to_le_bytes());
    // The field's own texts go before the definition, which its record must follow.
    let mut scratch = Body { b: body.b.clone() };
    let f = field(&mut scratch, groups_at);
    let mut body = scratch;
    let metas_at = body.put(&meta_rec(s_s, TAG_STRUCT, 1));
    body.put(&f);
    let t = Tables { macros_at, macros: 2, index_at, metas_at, metas: 1, groups_at, groups: 1 };
    blob(&body, "one", &t)
}

fn field_xml(data: &[u8]) -> Result<String, MetalibError> {
    let lib = decode(data);
    dump_tdr_meta_entry_xml(&lib, &lib.metas[0], &lib.metas[0].entries[0])
}

#[test]
fn truncated_header_is_refused() {
    assert_eq!(read_metalib(&[0u8; 10], 0).unwrap_err(), MetalibError::BufferTruncated { position: 0 });
}

#[test]
fn declared_size_past_the_data_is_refused() {
    let mut data = items_library();
    let declared = data.len() as u64;
    data.pop();
    assert_eq!(read_metalib(&data, 0).unwrap_err(), MetalibError::BufferTruncated { position: declared });
}

#[test]
fn unknown_type_tag_is_refused() {
    let mut body = Body::new();
    let s_s = body.text("S");
    let index_at = index_region(&mut body, 1);
    let metas_at = body.put(&meta_rec(s_s, 99, 0));
    let groups_at = body.pos();
    let t = Tables { macros_at: 0, macros: 0, index_at, metas_at, metas: 1, groups_at, groups: 0 };
    assert_eq!(read_metalib(&blob(&body, "bad", &t), 0).unwrap_err(), MetalibError::UnknownTypeTag { tag: 99 });
}

#[test]
fn text_pointer_past_the_body_is_refused() {
    let mut body = Body::new();
    let macros_at = body.put(&macro_rec(5000, 1, -1));
    let t = Tables { macros_at, macros: 1, index_at: 0, metas_at: 0, metas: 0, groups_at: 0, groups: 0 };
    assert_eq!(read_metalib(&blob(&body, "bad", &t), 0).unwrap_err(), MetalibError::BufferTruncated { position: 5000 });
}

#[test]
fn negative_counts_read_no_records() {
    let body = Body::new();
    let t = Tables { macros_at: 0, macros: -3, index_at: 0, metas_at: 0, metas: -1, groups_at: 0, groups: -2 };
    let lib = decode(&blob(&body, "empty", &t));
    assert!(lib.macros.is_empty() && lib.metas.is_empty() && lib.macrogroups.is_empty());
    assert_eq!(lib.header.name, "empty");
    assert_eq!(lib.header.magic, 0x0102);
}

#[test]
fn gbk_text_is_decoded() {
    let mut body = Body::new();
    let name_at = body.put(&[0xD6, 0xD0, 0x00]);
    let macros_at = body.put(&macro_rec(name_at, 3, -1));
    let t = Tables { macros_at, macros: 1, index_at: 0, metas_at: 0, metas: 0, groups_at: 0, groups: 0 };
    let lib = decode(&blob(&body, "gbk", &t));
    assert_eq!(lib.macros[0].name, "\u{4e2d}");
    assert_eq!(lib.macros[0]._offset, macros_at as u64);
    assert_eq!(dump_tdr_macro_xml(&lib.macros[0]), "<macro name=\"\u{4e2d}\" value=\"3\" />");
}

#[test]
fn fixed_width_name_stops_at_first_zero() {
    let body = Body::new();
    let t = Tables { macros_at: 0, macros: 0, index_at: 0, metas_at: 0, metas: 0, groups_at: 0, groups: 0 };
    let mut data = blob(&body, "abc", &t);
    data[148 + 5] = b'z';
    assert_eq!(decode(&data).header.name, "abc");
}

#[test]
fn integer_and_text_defaults() {
    let data = one_field_library(|body, _| {
        let name = body.text("n");
        let at = body.put(&(-42i32).to_le_bytes());
        let mut f = entry_rec(name, TAG_INT, ROW_INT, 0, 4);
        set_i32(&mut f, E_PTR_DEFAULT, at);
        f
    });
    let lib = decode(&data);
    assert_eq!(lib.metas[0].entries[0].default_value, DefaultValue::Signed(-42));
    assert_eq!(field_xml(&data).unwrap(), "<entry name=\"n\" type=\"int\" default=\"-42\"/>");
    let data = one_field_library(|body, _| {
        let name = body.text("t");
        let at = body.text("hello");
        let mut f = entry_rec(name, 22, 24, 0, 8);
        set_i32(&mut f, E_PTR_DEFAULT, at);
        f
    });
    let lib = decode(&data);
    assert_eq!(lib.metas[0].entries[0].default_value, DefaultValue::Text);
    assert_eq!(field_xml(&data).unwrap(), "<entry name=\"t\" type=\"string\" default=\"hello\"/>");
}

#[test]
fn default_of_a_date_is_unsupported() {
    let mut body = Body::new();
    let s_s = body.text("S");
    let s_d = body.text("d");
    let at = body.put(&[0u8; 4]);
    let index_at = index_region(&mut body, 1);
    let metas_at = body.put(&meta_rec(s_s, TAG_STRUCT, 1));
    let mut f = entry_rec(s_d, 13, 21, 0, 4);
    set_i32(&mut f, E_PTR_DEFAULT, at);
    let entry_at = body.put(&f);
    let groups_at = body.pos();
    let t = Tables { macros_at: 0, macros: 0, index_at, metas_at, metas: 1, groups_at, groups: 0 };
    assert_eq!(
        read_metalib(&blob(&body, "d", &t), 0).unwrap_err(),
        MetalibError::UnsupportedAttribute { record: entry_at as u64, attribute: Unsupported::DefaultValueType }
    );
}

#[test]
fn constant_backed_attributes() {
    let data = one_field_library(|body, group_at| {
        let name = body.text("v");
        let cname = body.text("value");
        let mut f = entry_rec(name, TAG_INT, ROW_INT, 0, 4);
        set_i32(&mut f, E_IDX_ID, 0);
        set_i32(&mut f, E_VERSION, 3);
        f[68] = 0x12;
        set_i32(&mut f, E_MIN_ID_IDX, 0);
        set_i32(&mut f, E_MAX_ID_IDX, -1);
        set_i32(&mut f, 124, 20);
        set_i32(&mut f, E_CNAME, cname);
        f[E_DB_FLAG] = 0x03;
        set_i32(&mut f, E_PTR_GROUP, group_at);
        f
    });
    assert_eq!(
        field_xml(&data).unwrap(),
        "<entry name=\"v\" type=\"*int\" version=\"3\" id=\"LOW\" cname=\"value\" unique=\"true\" notnull=\"true\" minid=\"LOW\" maxid=\"20\" bindmacrosgroup=\"G\"/>"
    );
}

#[test]
fn constant_or_literal_picks_name_or_literal() {
    let lib = decode(&one_field_library(|body, _| {
        let name = body.text("x");
        entry_rec(name, TAG_INT, ROW_INT, 0, 4)
    }));
    assert_eq!(constant_or_literal(&lib, -1, 5).unwrap(), "5");
    assert_eq!(constant_or_literal(&lib, -1, -12).unwrap(), "-12");
    assert_eq!(constant_or_literal(&lib, 1, 5).unwrap(), "HIGH");
    assert_eq!(constant_or_literal(&lib, 2, 5), Err(MetalibError::DanglingReference { offset: 2 }));
    assert_eq!(constant_or_literal(&lib, -7, 5), Err(MetalibError::DanglingReference { offset: -7 }));
}

#[test]
fn grouped_constants_are_written_inside_their_group() {
    let lib = decode(&one_field_library(|body, _| {
        let name = body.text("x");
        entry_rec(name, TAG_INT, ROW_INT, 0, 4)
    }));
    assert_eq!(lib.is_macro_in_group(&lib.macros[0]), Ok(false));
    assert_eq!(lib.is_macro_in_group(&lib.macros[1]), Ok(true));
    let group = lib.get_macrogroup_by_offset(lib.macrogroups[0]._offset as i32).unwrap();
    assert_eq!(group.value_idx_map, vec![1]);
    assert_eq!(
        dump_tdr_macrogroup_xml(&lib, group).unwrap(),
        "\t<macrosgroup name=\"G\" desc=\"bounds\">\n\t\t<macro name=\"HIGH\" value=\"9\" desc=\"upper\" />\n\t</macrosgroup>"
    );
    let xml = export_metalib_xml(&lib).unwrap();
    assert!(xml.contains("\t<macro name=\"LOW\" value=\"1\" />\n\t<macrosgroup"));
    assert!(!xml.contains("\n\t<macro name=\"HIGH\""));
}

#[test]
fn group_member_outside_the_table_is_dangling() {
    let mut lib = decode(&one_field_library(|body, _| {
        let name = body.text("x");
        entry_rec(name, TAG_INT, ROW_INT, 0, 4)
    }));
    lib.macrogroups[0].value_idx_map[0] = 5;
    assert_eq!(lib.is_macro_in_group(&lib.macros[0]), Err(MetalibError::DanglingReference { offset: 5 }));
    assert_eq!(dump_tdr_macrogroup_xml(&lib, &lib.macrogroups[0]), Err(MetalibError::DanglingReference { offset: 5 }));
}

#[test]
fn lookups_by_id_and_offset() {
    let lib = decode(&items_library());
    let item_at = lib.metas[1]._offset as i32;
    assert_eq!(lib.get_meta_by_offset(item_at).unwrap().name, "Item");
    assert_eq!(lib.get_meta_by_offset(-1).unwrap_err(), MetalibError::DanglingReference { offset: -1 });
    assert_eq!(lib.get_meta_by_offset(item_at + 1).unwrap_err(), MetalibError::DanglingReference { offset: item_at + 1 });
    assert_eq!(lib.get_meta_by_id(-1).unwrap_err(), MetalibError::DanglingReference { offset: -1 });
    assert!(lib.get_meta_by_id(4).is_err());
    assert_eq!(lib.get_macrogroup_by_offset(-1).unwrap_err(), MetalibError::DanglingReference { offset: -1 });
}

#[test]
fn io_codes_and_unsupported_flags() {
    let with = |io: i32, db: u8| {
        one_field_library(move |body, _| {
            let name = body.text("x");
            let mut f = entry_rec(name, TAG_INT, ROW_INT, 0, 4);
            set_i32(&mut f, E_IO, io);
            f[E_DB_FLAG] = db;
            f
        })
    };
    assert_eq!(field_xml(&with(2, 0)).unwrap(), "<entry name=\"x\" type=\"int\" io=\"nooutput\"/>");
    let lib = decode(&with(7, 0));
    let record = lib.metas[0].entries[0]._offset;
    assert_eq!(field_xml(&with(7, 0)), Err(MetalibError::UnsupportedAttribute { record, attribute: Unsupported::IoMode }));
    assert_eq!(field_xml(&with(0, 0x04)), Err(MetalibError::UnsupportedAttribute { record, attribute: Unsupported::ExtendToTable }));
    assert_eq!(field_xml(&with(0, 0x20)), Err(MetalibError::UnsupportedAttribute { record, attribute: Unsupported::AutoIncrement }));
}

#[test]
fn dangling_struct_reference_fails() {
    let data = one_field_library(|body, _| {
        let name = body.text("x");
        let mut f = entry_rec(name, TAG_STRUCT, 1, 0, 4);
        set_i32(&mut f, E_PTR_META, 3);
        f
    });
    assert_eq!(field_xml(&data), Err(MetalibError::DanglingReference { offset: 3 }));
}

#[test]
fn size_refer_and_sizeinfo_attributes() {
    let mut body = Body::new();
    let s_s = body.text("S");
    let s_len = body.text("len");
    let s_data = body.text("data");
    let index_at = index_region(&mut body, 1);
    let metas_at = body.put(&meta_rec(s_s, TAG_STRUCT, 2));
    body.put(&entry_rec(s_len, TAG_INT, ROW_INT, 0, 4));
    let mut d = entry_rec(s_data, TAG_INT, ROW_INT, 4, 16);
    set_i32(&mut d, E_COUNT, 4);
    d[71] = 2;
    set_i32(&mut d, E_REFERER + 4, 0);
    set_i32(&mut d, E_SIZE_INFO + 8, 4);
    set_i32(&mut d, E_SIZE_INFO + 12, ROW_INT);
    set_i32(&mut d, 32, 8);
    body.put(&d);
    let groups_at = body.pos();
    let t = Tables { macros_at: 0, macros: 0, index_at, metas_at, metas: 1, groups_at, groups: 0 };
    let lib = decode(&blob(&body, "s", &t));
    assert_eq!(
        dump_tdr_meta_entry_xml(&lib, &lib.metas[0], &lib.metas[0].entries[1]).unwrap(),
        "<entry name=\"data\" type=\"int\" count=\"4\" size=\"2\" refer=\"len\" sizeinfo=\"int\" sortMethod=\"desc\"/>"
    );
}

#[test]
fn decimal_text_of_extremes() {
    assert_eq!(i64_text(i64::MIN), "-9223372036854775808");
    assert_eq!(i64_text(0), "0");
    assert_eq!(i64_text(-7), "-7");
    assert_eq!(u64_text(u64::MAX), "18446744073709551615");
    assert_eq!(u64_text(120), "120");
}

#[test]
fn type_catalogue_rows_and_tags() {
    assert_eq!(type_info(6).unwrap().xml_name, "int");
    assert_eq!(type_info(24).unwrap().primative_type, MetaPrimativeType::STRING);
    assert_eq!(type_info(37).unwrap().size, 8);
    assert!(type_info(38).is_none());
    assert!(type_info(-1).is_none());
    assert_eq!(MetaPrimativeType::from_int(-1), Ok(MetaPrimativeType::UNKNOWN));
    assert_eq!(MetaPrimativeType::from_int(23), Ok(MetaPrimativeType::VOID));
    assert_eq!(MetaPrimativeType::from_int(24), Err(MetalibError::UnknownTypeTag { tag: 24 }));
    assert_eq!(MetaPrimativeType::STRING.to_int(), 21);
}

fn struct_library(patch: &dyn Fn(&mut Vec<u8>)) -> Vec<u8> {
    let mut body = Body::new();
    let s_s = body.text("S");
    let s_v = body.text("ver");
    let index_at = index_region(&mut body, 1);
    let mut m = meta_rec(s_s, TAG_STRUCT, 1);
    patch(&mut m);
    let metas_at = body.put(&m);
    body.put(&entry_rec(s_v, TAG_INT, ROW_INT, 0, 4));
    let groups_at = body.pos();
    let t = Tables { macros_at: 0, macros: 0, index_at, metas_at, metas: 1, groups_at, groups: 0 };
    blob(&body, "s", &t)
}

#[test]
fn struct_attributes() {
    let data = struct_library(&|m: &mut Vec<u8>| {
        set_i32(m, 32, 64);
        set_i32(m, M_CUSTOM_ALIGN, 8);
        set_i32(m, M_SORT_KEY + 4, 0);
        set_i32(m, M_SIZE_TYPE + 8, 2);
        set_i32(m, M_SIZE_TYPE + 12, 4);
    });
    let xml = export_metalib_xml(&decode(&data)).unwrap();
    assert!(xml.contains(
        "\t<struct name=\"S\" version=\"1\" size=\"64\" align=\"8\" sizeinfo=\"smallint\" sortkey=\"ver\">\n"
    ));
}

#[test]
fn unsupported_struct_feature_aborts_export() {
    let lib = decode(&struct_library(&|m: &mut Vec<u8>| set_i32(m, M_DEPENDON, 0)));
    assert_eq!(
        export_metalib_xml(&lib),
        Err(MetalibError::UnsupportedAttribute { record: lib.metas[0]._offset, attribute: Unsupported::DependOnTable })
    );
}

#[test]
fn three_level_path_keeps_every_segment() {
    let mut body = Body::new();
    let s_inner = body.text("Inner");
    let s_x = body.text("x");
    let s_y = body.text("y");
    let s_mid = body.text("Mid");
    let s_in = body.text("inner");
    let s_outer = body.text("Outer");
    let s_m = body.text("mid");
    let index_at = index_region(&mut body, 3);
    let metas_at = body.pos();
    let inner_at = body.put(&meta_rec(s_inner, TAG_STRUCT, 2));
    body.put(&entry_rec(s_x, TAG_INT, ROW_INT, 0, 4));
    body.put(&entry_rec(s_y, TAG_INT, ROW_INT, 4, 4));
    let mid_at = body.put(&meta_rec(s_mid, TAG_STRUCT, 1));
    let mut f = entry_rec(s_in, TAG_STRUCT, 1, 0, 8);
    set_i32(&mut f, E_PTR_META, inner_at);
    body.put(&f);
    body.put(&meta_rec(s_outer, TAG_STRUCT, 1));
    let mut f = entry_rec(s_m, TAG_STRUCT, 1, 0, 8);
    set_i32(&mut f, E_PTR_META, mid_at);
    body.put(&f);
    let groups_at = body.pos();
    let t = Tables { macros_at: 0, macros: 0, index_at, metas_at, metas: 3, groups_at, groups: 0 };
    let lib = decode(&blob(&body, "deep", &t));
    let outer = &lib.metas[2];
    assert_eq!(resolve_meta_entry_name_by_net_offset(&lib, outer, 4).unwrap(), "mid.inner.y");
    assert_eq!(resolve_meta_entry_name_by_host_offset(&lib, outer, 0).unwrap(), "mid.inner.x");
}

#[test]
fn utf8_header_name_is_decoded() {
    let body = Body::new();
    let t = Tables { macros_at: 0, macros: 0, index_at: 0, metas_at: 0, metas: 0, groups_at: 0, groups: 0 };
    let data = blob(&body, "caf\u{e9}", &t);
    assert_eq!(decode(&data).header.name, "caf\u{e9}");
    let mut bad = data.clone();
    bad[148] = 0xFF;
    assert_eq!(decode(&bad).header.name, "\u{fffd}af\u{e9}");
}

#[test]
fn first_covering_leaf_decides_over_later_overlap() {
    let mut body = Body::new();
    let s_o = body.text("Overlap");
    let s_a = body.text("a");
    let s_b = body.text("b");
    let s_h = body.text("Holder");
    let s_f = body.text("field");
    let index_at = index_region(&mut body, 2);
    let metas_at = body.pos();
    let o_at = body.put(&meta_rec(s_o, TAG_STRUCT, 2));
    body.put(&entry_rec(s_a, TAG_INT, ROW_INT, 0, 4));
    body.put(&entry_rec(s_b, 5, 4, 2, 2));
    body.put(&meta_rec(s_h, TAG_STRUCT, 1));
    let mut f = entry_rec(s_f, TAG_STRUCT, 1, 0, 4);
    set_i32(&mut f, E_PTR_META, o_at);
    body.put(&f);
    let groups_at = body.pos();
    let t = Tables { macros_at: 0, macros: 0, index_at, metas_at, metas: 2, groups_at, groups: 0 };
    let lib = decode(&blob(&body, "overlap", &t));
    let overlap = &lib.metas[0];
    assert_eq!(
        resolve_meta_entry_name_by_net_offset(&lib, overlap, 2),
        Err(MetalibError::ResolutionFailed { target: 2, space: Space::Net })
    );
    assert_eq!(
        resolve_meta_entry_name_by_host_offset(&lib, overlap, 2),
        Err(MetalibError::ResolutionFailed { target: 2, space: Space::Host })
    );
    assert_eq!(resolve_meta_entry_name_by_net_offset(&lib, overlap, 0).unwrap(), "a");
    let holder = &lib.metas[1];
    assert_eq!(
        resolve_meta_entry_name_by_net_offset(&lib, holder, 2),
        Err(MetalibError::ResolutionFailed { target: 2, space: Space::Net })
    );
    assert_eq!(resolve_meta_entry_name_by_host_offset(&lib, holder, 0).unwrap(), "field.a");
}

#[test]
fn self_referencing_struct_resolves_at_every_depth() {
    let mut body = Body::new();
    let s_node = body.text("Node");
    let s_a = body.text("a");
    let s_x = body.text("x");
    let index_at = index_region(&mut body, 1);
    let node_at = body.pos();
    let metas_at = body.put(&meta_rec(s_node, TAG_STRUCT, 2));
    body.put(&entry_rec(s_a, 3, 3, 0, 1));
    let mut x = entry_rec(s_x, TAG_STRUCT, 1, 1, 100);
    set_i32(&mut x, E_PTR_META, node_at);
    body.put(&x);
    let groups_at = body.pos();
    let t = Tables { macros_at: 0, macros: 0, index_at, metas_at, metas: 1, groups_at, groups: 0 };
    let lib = decode(&blob(&body, "self", &t));
    let node = &lib.metas[0];
    assert_eq!(resolve_meta_entry_name_by_net_offset(&lib, node, 0).unwrap(), "a");
    assert_eq!(resolve_meta_entry_name_by_net_offset(&lib, node, 2).unwrap(), "x.x.a");
    assert_eq!(resolve_meta_entry_name_by_host_offset(&lib, node, 5).unwrap(), "x.x.x.x.x.a");
}

#[test]
fn group_with_misplaced_arrays_is_refused() {
    for (at, value) in [(12usize, 140i32), (16usize, 148i32)] {
        let mut data = one_field_library(|body, _| {
            let name = body.text("x");
            entry_rec(name, TAG_INT, ROW_INT, 0, 4)
        });
        let lib = decode(&data);
        let group_at = lib.macrogroups[0]._offset;
        let p = 0x114 + group_at as usize + at;
        data[p..p + 4].copy_from_slice(&value.to_le_bytes());
        assert_eq!(
            read_metalib(&data, 0).unwrap_err(),
            MetalibError::InconsistentLayout { record: group_at }
        );
    }
}
