//! The catalogue of primitive type tags and their schema names.
use crate::error::MetalibError;
use vstd::prelude::*;

verus! {

/// A type tag of the binary format; a field or a definition carries one.
#[allow(non_camel_case_types)]
#[derive(Clone, Copy, Debug, PartialEq, Eq, Structural)]
pub enum MetaPrimativeType {
    UNKNOWN,
    UNION,
    STRUCT,
    /// i8
    CHAR,
    /// u8
    UCHAR,
    /// u8
    BYTE,
    /// i16
    SHORT,
    /// u16
    USHORT,
    /// i32
    INT,
    /// u32
    UINT,
    /// i32
    LONG,
    /// u32
    ULONG,
    /// i64
    LONGLONG,
    /// u64
    ULONGLONG,
    /// 4-byte date
    DATE,
    /// 4-byte time
    TIME,
    /// 8-byte date and time
    DATETIME,
    /// 4-byte money value
    MONEY,
    /// 32-bit float
    FLOAT,
    /// 64-bit float
    DOUBLE,
    /// 4-byte IPv4 address
    IP,
    /// 2-byte wide character
    WCHAR,
    /// narrow text
    STRING,
    /// wide text
    WSTRING,
    VOID,
}

/// The integer tag of each type in the binary format (-1 to 23).
pub open spec fn tag_of(t: MetaPrimativeType) -> i32 {
    match t {
        MetaPrimativeType::UNKNOWN => -1i32,
        MetaPrimativeType::UNION => 0,
        MetaPrimativeType::STRUCT => 1,
        MetaPrimativeType::CHAR => 2,
        MetaPrimativeType::UCHAR => 3,
        MetaPrimativeType::BYTE => 4,
        MetaPrimativeType::SHORT => 5,
        MetaPrimativeType::USHORT => 6,
        MetaPrimativeType::INT => 7,
        MetaPrimativeType::UINT => 8,
        MetaPrimativeType::LONG => 9,
        MetaPrimativeType::ULONG => 10,
        MetaPrimativeType::LONGLONG => 11,
        MetaPrimativeType::ULONGLONG => 12,
        MetaPrimativeType::DATE => 13,
        MetaPrimativeType::TIME => 14,
        MetaPrimativeType::DATETIME => 15,
        MetaPrimativeType::MONEY => 16,
        MetaPrimativeType::FLOAT => 17,
        MetaPrimativeType::DOUBLE => 18,
        MetaPrimativeType::IP => 19,
        MetaPrimativeType::WCHAR => 20,
        MetaPrimativeType::STRING => 21,
        MetaPrimativeType::WSTRING => 22,
        MetaPrimativeType::VOID => 23,
    }
}

/// The type whose tag is `tag`, if any.
pub open spec fn type_of_tag(tag: i32) -> Option<MetaPrimativeType> {
    if tag == -1 {
        Some(MetaPrimativeType::UNKNOWN)
    } else if tag == 0 {
        Some(MetaPrimativeType::UNION)
    } else if tag == 1 {
        Some(MetaPrimativeType::STRUCT)
    } else if tag == 2 {
        Some(MetaPrimativeType::CHAR)
    } else if tag == 3 {
        Some(MetaPrimativeType::UCHAR)
    } else if tag == 4 {
        Some(MetaPrimativeType::BYTE)
    } else if tag == 5 {
        Some(MetaPrimativeType::SHORT)
    } else if tag == 6 {
        Some(MetaPrimativeType::USHORT)
    } else if tag == 7 {
        Some(MetaPrimativeType::INT)
    } else if tag == 8 {
        Some(MetaPrimativeType::UINT)
    } else if tag == 9 {
        Some(MetaPrimativeType::LONG)
    } else if tag == 10 {
        Some(MetaPrimativeType::ULONG)
    } else if tag == 11 {
        Some(MetaPrimativeType::LONGLONG)
    } else if tag == 12 {
        Some(MetaPrimativeType::ULONGLONG)
    } else if tag == 13 {
        Some(MetaPrimativeType::DATE)
    } else if tag == 14 {
        Some(MetaPrimativeType::TIME)
    } else if tag == 15 {
        Some(MetaPrimativeType::DATETIME)
    } else if tag == 16 {
        Some(MetaPrimativeType::MONEY)
    } else if tag == 17 {
        Some(MetaPrimativeType::FLOAT)
    } else if tag == 18 {
        Some(MetaPrimativeType::DOUBLE)
    } else if tag == 19 {
        Some(MetaPrimativeType::IP)
    } else if tag == 20 {
        Some(MetaPrimativeType::WCHAR)
    } else if tag == 21 {
        Some(MetaPrimativeType::STRING)
    } else if tag == 22 {
        Some(MetaPrimativeType::WSTRING)
    } else if tag == 23 {
        Some(MetaPrimativeType::VOID)
    } else {
        None
    }
}

impl MetaPrimativeType {
    /// The type of a tag read from the binary format.
    pub fn from_int(tag: i32) -> (r: Result<MetaPrimativeType, MetalibError>)
        ensures
            type_of_tag(tag) matches Some(t) ==> r == Ok::<MetaPrimativeType, MetalibError>(t),
            type_of_tag(tag) is None ==> r == Err::<MetaPrimativeType, MetalibError>(
                MetalibError::UnknownTypeTag { tag },
            ),
    {
        match tag {
            -1 => Ok(MetaPrimativeType::UNKNOWN),
            0 => Ok(MetaPrimativeType::UNION),
            1 => Ok(MetaPrimativeType::STRUCT),
            2 => Ok(MetaPrimativeType::CHAR),
            3 => Ok(MetaPrimativeType::UCHAR),
            4 => Ok(MetaPrimativeType::BYTE),
            5 => Ok(MetaPrimativeType::SHORT),
            6 => Ok(MetaPrimativeType::USHORT),
            7 => Ok(MetaPrimativeType::INT),
            8 => Ok(MetaPrimativeType::UINT),
            9 => Ok(MetaPrimativeType::LONG),
            10 => Ok(MetaPrimativeType::ULONG),
            11 => Ok(MetaPrimativeType::LONGLONG),
            12 => Ok(MetaPrimativeType::ULONGLONG),
            13 => Ok(MetaPrimativeType::DATE),
            14 => Ok(MetaPrimativeType::TIME),
            15 => Ok(MetaPrimativeType::DATETIME),
            16 => Ok(MetaPrimativeType::MONEY),
            17 => Ok(MetaPrimativeType::FLOAT),
            18 => Ok(MetaPrimativeType::DOUBLE),
            19 => Ok(MetaPrimativeType::IP),
            20 => Ok(MetaPrimativeType::WCHAR),
            21 => Ok(MetaPrimativeType::STRING),
            22 => Ok(MetaPrimativeType::WSTRING),
            23 => Ok(MetaPrimativeType::VOID),
            _ => Err(MetalibError::UnknownTypeTag { tag }),
        }
    }

    /// The integer tag of this type.
    pub fn to_int(&self) -> (r: i32)
        ensures
            r == tag_of(*self),
    {
        match self {
            MetaPrimativeType::UNKNOWN => -1i32,
            MetaPrimativeType::UNION => 0,
            MetaPrimativeType::STRUCT => 1,
            MetaPrimativeType::CHAR => 2,
            MetaPrimativeType::UCHAR => 3,
            MetaPrimativeType::BYTE => 4,
            MetaPrimativeType::SHORT => 5,
            MetaPrimativeType::USHORT => 6,
            MetaPrimativeType::INT => 7,
            MetaPrimativeType::UINT => 8,
            MetaPrimativeType::LONG => 9,
            MetaPrimativeType::ULONG => 10,
            MetaPrimativeType::LONGLONG => 11,
            MetaPrimativeType::ULONGLONG => 12,
            MetaPrimativeType::DATE => 13,
            MetaPrimativeType::TIME => 14,
            MetaPrimativeType::DATETIME => 15,
            MetaPrimativeType::MONEY => 16,
            MetaPrimativeType::FLOAT => 17,
            MetaPrimativeType::DOUBLE => 18,
            MetaPrimativeType::IP => 19,
            MetaPrimativeType::WCHAR => 20,
            MetaPrimativeType::STRING => 21,
            MetaPrimativeType::WSTRING => 22,
            MetaPrimativeType::VOID => 23,
        }
    }
}

/// One row of the type catalogue: the schema name, the C name, the type, and
/// its native size in bytes.
#[derive(Clone, Copy, Debug)]
pub struct TDRTypeInfo {
    pub xml_name: &'static str,
    pub c_name: &'static str,
    pub primative_type: MetaPrimativeType,
    pub size: i32,
}

/// Row `idx` of the type catalogue; fields refer to rows by index.
pub open spec fn type_info_spec(idx: int) -> Option<TDRTypeInfo> {
    if idx == 0 {
        Some(TDRTypeInfo { xml_name: "union", c_name: "union", primative_type: MetaPrimativeType::UNION, size: 0 })
    } else if idx == 1 {
        Some(TDRTypeInfo { xml_name: "struct", c_name: "struct", primative_type: MetaPrimativeType::STRUCT, size: 0 })
    } else if idx == 2 {
        Some(TDRTypeInfo { xml_name: "tinyint", c_name: "int8_t", primative_type: MetaPrimativeType::CHAR, size: 1 })
    } else if idx == 3 {
        Some(TDRTypeInfo { xml_name: "tinyuint", c_name: "uint8_t", primative_type: MetaPrimativeType::UCHAR, size: 1 })
    } else if idx == 4 {
        Some(TDRTypeInfo { xml_name: "smallint", c_name: "int16_t", primative_type: MetaPrimativeType::SHORT, size: 2 })
    } else if idx == 5 {
        Some(TDRTypeInfo { xml_name: "smalluint", c_name: "uint16_t", primative_type: MetaPrimativeType::USHORT, size: 2 })
    } else if idx == 6 {
        Some(TDRTypeInfo { xml_name: "int", c_name: "int32_t", primative_type: MetaPrimativeType::INT, size: 4 })
    } else if idx == 7 {
        Some(TDRTypeInfo { xml_name: "uint", c_name: "uint32_t", primative_type: MetaPrimativeType::UINT, size: 4 })
    } else if idx == 8 {
        Some(TDRTypeInfo { xml_name: "bigint", c_name: "int64_t", primative_type: MetaPrimativeType::LONGLONG, size: 8 })
    } else if idx == 9 {
        Some(TDRTypeInfo { xml_name: "biguint", c_name: "uint64_t", primative_type: MetaPrimativeType::ULONGLONG, size: 8 })
    } else if idx == 10 {
        Some(TDRTypeInfo { xml_name: "int8", c_name: "int8_t", primative_type: MetaPrimativeType::CHAR, size: 1 })
    } else if idx == 11 {
        Some(TDRTypeInfo { xml_name: "uint8", c_name: "uint8_t", primative_type: MetaPrimativeType::UCHAR, size: 1 })
    } else if idx == 12 {
        Some(TDRTypeInfo { xml_name: "int16", c_name: "int16_t", primative_type: MetaPrimativeType::SHORT, size: 2 })
    } else if idx == 13 {
        Some(TDRTypeInfo { xml_name: "uint16", c_name: "uint16_t", primative_type: MetaPrimativeType::USHORT, size: 2 })
    } else if idx == 14 {
        Some(TDRTypeInfo { xml_name: "int32", c_name: "int32_t", primative_type: MetaPrimativeType::INT, size: 4 })
    } else if idx == 15 {
        Some(TDRTypeInfo { xml_name: "uint32", c_name: "uint32_t", primative_type: MetaPrimativeType::UINT, size: 4 })
    } else if idx == 16 {
        Some(TDRTypeInfo { xml_name: "int64", c_name: "int64_t", primative_type: MetaPrimativeType::LONGLONG, size: 8 })
    } else if idx == 17 {
        Some(TDRTypeInfo { xml_name: "uint64", c_name: "uint64_t", primative_type: MetaPrimativeType::ULONGLONG, size: 8 })
    } else if idx == 18 {
        Some(TDRTypeInfo { xml_name: "float", c_name: "float", primative_type: MetaPrimativeType::FLOAT, size: 4 })
    } else if idx == 19 {
        Some(TDRTypeInfo { xml_name: "double", c_name: "double", primative_type: MetaPrimativeType::DOUBLE, size: 8 })
    } else if idx == 20 {
        Some(TDRTypeInfo { xml_name: "decimal", c_name: "float", primative_type: MetaPrimativeType::FLOAT, size: 4 })
    } else if idx == 21 {
        Some(TDRTypeInfo { xml_name: "date", c_name: "tdr_date_t", primative_type: MetaPrimativeType::DATE, size: 4 })
    } else if idx == 22 {
        Some(TDRTypeInfo { xml_name: "time", c_name: "tdr_time_t", primative_type: MetaPrimativeType::TIME, size: 4 })
    } else if idx == 23 {
        Some(TDRTypeInfo { xml_name: "datetime", c_name: "tdr_datetime_t", primative_type: MetaPrimativeType::DATETIME, size: 8 })
    } else if idx == 24 {
        Some(TDRTypeInfo { xml_name: "string", c_name: "char", primative_type: MetaPrimativeType::STRING, size: 1 })
    } else if idx == 25 {
        Some(TDRTypeInfo { xml_name: "byte", c_name: "uint8_t", primative_type: MetaPrimativeType::UCHAR, size: 1 })
    } else if idx == 26 {
        Some(TDRTypeInfo { xml_name: "ip", c_name: "tdr_ip_t", primative_type: MetaPrimativeType::IP, size: 4 })
    } else if idx == 27 {
        Some(TDRTypeInfo { xml_name: "wchar", c_name: "tdr_wchar_t", primative_type: MetaPrimativeType::WCHAR, size: 2 })
    } else if idx == 28 {
        Some(TDRTypeInfo { xml_name: "wstring", c_name: "tdr_wchar_t", primative_type: MetaPrimativeType::WSTRING, size: 2 })
    } else if idx == 29 {
        Some(TDRTypeInfo { xml_name: "void", c_name: "void", primative_type: MetaPrimativeType::VOID, size: 1 })
    } else if idx == 30 {
        Some(TDRTypeInfo { xml_name: "char", c_name: "char", primative_type: MetaPrimativeType::CHAR, size: 1 })
    } else if idx == 31 {
        Some(TDRTypeInfo { xml_name: "uchar", c_name: "unsigned char", primative_type: MetaPrimativeType::UCHAR, size: 1 })
    } else if idx == 32 {
        Some(TDRTypeInfo { xml_name: "short", c_name: "int16_t", primative_type: MetaPrimativeType::SHORT, size: 2 })
    } else if idx == 33 {
        Some(TDRTypeInfo { xml_name: "ushort", c_name: "uint16_t", primative_type: MetaPrimativeType::USHORT, size: 2 })
    } else if idx == 34 {
        Some(TDRTypeInfo { xml_name: "long", c_name: "int32_t", primative_type: MetaPrimativeType::LONG, size: 4 })
    } else if idx == 35 {
        Some(TDRTypeInfo { xml_name: "ulong", c_name: "uint32_t", primative_type: MetaPrimativeType::ULONG, size: 4 })
    } else if idx == 36 {
        Some(TDRTypeInfo { xml_name: "longlong", c_name: "int64_t", primative_type: MetaPrimativeType::LONGLONG, size: 8 })
    } else if idx == 37 {
        Some(TDRTypeInfo { xml_name: "ulonglong", c_name: "uint64_t", primative_type: MetaPrimativeType::ULONGLONG, size: 8 })
    } else {
        None
    }
}

/// Row `idx` of the type catalogue, or `None` past its end (and for -1).
pub fn type_info(idx: i32) -> (r: Option<TDRTypeInfo>)
    ensures
        r == type_info_spec(idx as int),
{
    match idx {
        0 => Some(TDRTypeInfo { xml_name: "union", c_name: "union", primative_type: MetaPrimativeType::UNION, size: 0 }),
        1 => Some(TDRTypeInfo { xml_name: "struct", c_name: "struct", primative_type: MetaPrimativeType::STRUCT, size: 0 }),
        2 => Some(TDRTypeInfo { xml_name: "tinyint", c_name: "int8_t", primative_type: MetaPrimativeType::CHAR, size: 1 }),
        3 => Some(TDRTypeInfo { xml_name: "tinyuint", c_name: "uint8_t", primative_type: MetaPrimativeType::UCHAR, size: 1 }),
        4 => Some(TDRTypeInfo { xml_name: "smallint", c_name: "int16_t", primative_type: MetaPrimativeType::SHORT, size: 2 }),
        5 => Some(TDRTypeInfo { xml_name: "smalluint", c_name: "uint16_t", primative_type: MetaPrimativeType::USHORT, size: 2 }),
        6 => Some(TDRTypeInfo { xml_name: "int", c_name: "int32_t", primative_type: MetaPrimativeType::INT, size: 4 }),
        7 => Some(TDRTypeInfo { xml_name: "uint", c_name: "uint32_t", primative_type: MetaPrimativeType::UINT, size: 4 }),
        8 => Some(TDRTypeInfo { xml_name: "bigint", c_name: "int64_t", primative_type: MetaPrimativeType::LONGLONG, size: 8 }),
        9 => Some(TDRTypeInfo { xml_name: "biguint", c_name: "uint64_t", primative_type: MetaPrimativeType::ULONGLONG, size: 8 }),
        10 => Some(TDRTypeInfo { xml_name: "int8", c_name: "int8_t", primative_type: MetaPrimativeType::CHAR, size: 1 }),
        11 => Some(TDRTypeInfo { xml_name: "uint8", c_name: "uint8_t", primative_type: MetaPrimativeType::UCHAR, size: 1 }),
        12 => Some(TDRTypeInfo { xml_name: "int16", c_name: "int16_t", primative_type: MetaPrimativeType::SHORT, size: 2 }),
        13 => Some(TDRTypeInfo { xml_name: "uint16", c_name: "uint16_t", primative_type: MetaPrimativeType::USHORT, size: 2 }),
        14 => Some(TDRTypeInfo { xml_name: "int32", c_name: "int32_t", primative_type: MetaPrimativeType::INT, size: 4 }),
        15 => Some(TDRTypeInfo { xml_name: "uint32", c_name: "uint32_t", primative_type: MetaPrimativeType::UINT, size: 4 }),
        16 => Some(TDRTypeInfo { xml_name: "int64", c_name: "int64_t", primative_type: MetaPrimativeType::LONGLONG, size: 8 }),
        17 => Some(TDRTypeInfo { xml_name: "uint64", c_name: "uint64_t", primative_type: MetaPrimativeType::ULONGLONG, size: 8 }),
        18 => Some(TDRTypeInfo { xml_name: "float", c_name: "float", primative_type: MetaPrimativeType::FLOAT, size: 4 }),
        19 => Some(TDRTypeInfo { xml_name: "double", c_name: "double", primative_type: MetaPrimativeType::DOUBLE, size: 8 }),
        20 => Some(TDRTypeInfo { xml_name: "decimal", c_name: "float", primative_type: MetaPrimativeType::FLOAT, size: 4 }),
        21 => Some(TDRTypeInfo { xml_name: "date", c_name: "tdr_date_t", primative_type: MetaPrimativeType::DATE, size: 4 }),
        22 => Some(TDRTypeInfo { xml_name: "time", c_name: "tdr_time_t", primative_type: MetaPrimativeType::TIME, size: 4 }),
        23 => Some(TDRTypeInfo { xml_name: "datetime", c_name: "tdr_datetime_t", primative_type: MetaPrimativeType::DATETIME, size: 8 }),
        24 => Some(TDRTypeInfo { xml_name: "string", c_name: "char", primative_type: MetaPrimativeType::STRING, size: 1 }),
        25 => Some(TDRTypeInfo { xml_name: "byte", c_name: "uint8_t", primative_type: MetaPrimativeType::UCHAR, size: 1 }),
        26 => Some(TDRTypeInfo { xml_name: "ip", c_name: "tdr_ip_t", primative_type: MetaPrimativeType::IP, size: 4 }),
        27 => Some(TDRTypeInfo { xml_name: "wchar", c_name: "tdr_wchar_t", primative_type: MetaPrimativeType::WCHAR, size: 2 }),
        28 => Some(TDRTypeInfo { xml_name: "wstring", c_name: "tdr_wchar_t", primative_type: MetaPrimativeType::WSTRING, size: 2 }),
        29 => Some(TDRTypeInfo { xml_name: "void", c_name: "void", primative_type: MetaPrimativeType::VOID, size: 1 }),
        30 => Some(TDRTypeInfo { xml_name: "char", c_name: "char", primative_type: MetaPrimativeType::CHAR, size: 1 }),
        31 => Some(TDRTypeInfo { xml_name: "uchar", c_name: "unsigned char", primative_type: MetaPrimativeType::UCHAR, size: 1 }),
        32 => Some(TDRTypeInfo { xml_name: "short", c_name: "int16_t", primative_type: MetaPrimativeType::SHORT, size: 2 }),
        33 => Some(TDRTypeInfo { xml_name: "ushort", c_name: "uint16_t", primative_type: MetaPrimativeType::USHORT, size: 2 }),
        34 => Some(TDRTypeInfo { xml_name: "long", c_name: "int32_t", primative_type: MetaPrimativeType::LONG, size: 4 }),
        35 => Some(TDRTypeInfo { xml_name: "ulong", c_name: "uint32_t", primative_type: MetaPrimativeType::ULONG, size: 4 }),
        36 => Some(TDRTypeInfo { xml_name: "longlong", c_name: "int64_t", primative_type: MetaPrimativeType::LONGLONG, size: 8 }),
        37 => Some(TDRTypeInfo { xml_name: "ulonglong", c_name: "uint64_t", primative_type: MetaPrimativeType::ULONGLONG, size: 8 }),
        _ => None,
    }
}

} // verus!
