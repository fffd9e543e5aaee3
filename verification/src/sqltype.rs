//! SQL Server column types as the server reports them, kept close to T-SQL.

use crate::text::{ascii_lower, dec, dec_u64, lower_of, push_all, push_str, string_of};
use vstd::prelude::*;

verus! {

broadcast use vstd::string::group_string_axioms;

/// SQL Server column types. `len` / `dims` = `None` means `(max)` / unspecified.
#[derive(Clone, Debug, PartialEq, Eq, Hash)]
pub enum SqlType {
    Bit,
    TinyInt,
    SmallInt,
    Int,
    BigInt,
    Decimal { precision: u8, scale: u8 },
    Numeric { precision: u8, scale: u8 },
    Money,
    SmallMoney,
    Float,
    Real,
    Date,
    Time { scale: u8 },
    DateTime,
    DateTime2 { scale: u8 },
    SmallDateTime,
    DateTimeOffset { scale: u8 },
    Char { len: Option<u32> },
    VarChar { len: Option<u32> },
    NChar { len: Option<u32> },
    NVarChar { len: Option<u32> },
    Text,
    NText,
    Binary { len: Option<u32> },
    VarBinary { len: Option<u32> },
    Image,
    UniqueIdentifier,
    Xml,
    SqlVariant,
    Geography,
    Geometry,
    HierarchyId,
    Json,
    Vector { dims: Option<u32> },
    Timestamp,
    Other(String),
}

/// Characters for a length in bytes: `None` (max) when negative.
pub open spec fn char_len(bytes: i32, per_char: i32) -> Option<u32> {
    if bytes < 0 {
        None
    } else {
        Some((bytes / per_char) as u32)
    }
}

/// The type for a lower-cased `sys.types` name, or `None` for names not listed.
pub open spec fn catalog_type(name: Seq<char>, max_length: i32, precision: u8, scale: u8) -> Option<
    SqlType,
> {
    if name == "bit"@ {
        Some(SqlType::Bit)
    } else if name == "tinyint"@ {
        Some(SqlType::TinyInt)
    } else if name == "smallint"@ {
        Some(SqlType::SmallInt)
    } else if name == "int"@ {
        Some(SqlType::Int)
    } else if name == "bigint"@ {
        Some(SqlType::BigInt)
    } else if name == "decimal"@ {
        Some(SqlType::Decimal { precision, scale })
    } else if name == "numeric"@ {
        Some(SqlType::Numeric { precision, scale })
    } else if name == "money"@ {
        Some(SqlType::Money)
    } else if name == "smallmoney"@ {
        Some(SqlType::SmallMoney)
    } else if name == "float"@ {
        Some(SqlType::Float)
    } else if name == "real"@ {
        Some(SqlType::Real)
    } else if name == "date"@ {
        Some(SqlType::Date)
    } else if name == "time"@ {
        Some(SqlType::Time { scale })
    } else if name == "datetime"@ {
        Some(SqlType::DateTime)
    } else if name == "datetime2"@ {
        Some(SqlType::DateTime2 { scale })
    } else if name == "smalldatetime"@ {
        Some(SqlType::SmallDateTime)
    } else if name == "datetimeoffset"@ {
        Some(SqlType::DateTimeOffset { scale })
    } else if name == "char"@ {
        Some(SqlType::Char { len: char_len(max_length, 1) })
    } else if name == "varchar"@ {
        Some(SqlType::VarChar { len: char_len(max_length, 1) })
    } else if name == "nchar"@ {
        Some(SqlType::NChar { len: char_len(max_length, 2) })
    } else if name == "nvarchar"@ {
        Some(SqlType::NVarChar { len: char_len(max_length, 2) })
    } else if name == "text"@ {
        Some(SqlType::Text)
    } else if name == "ntext"@ {
        Some(SqlType::NText)
    } else if name == "binary"@ {
        Some(SqlType::Binary { len: char_len(max_length, 1) })
    } else if name == "varbinary"@ {
        Some(SqlType::VarBinary { len: char_len(max_length, 1) })
    } else if name == "image"@ {
        Some(SqlType::Image)
    } else if name == "uniqueidentifier"@ {
        Some(SqlType::UniqueIdentifier)
    } else if name == "xml"@ {
        Some(SqlType::Xml)
    } else if name == "sql_variant"@ {
        Some(SqlType::SqlVariant)
    } else if name == "geography"@ {
        Some(SqlType::Geography)
    } else if name == "geometry"@ {
        Some(SqlType::Geometry)
    } else if name == "hierarchyid"@ {
        Some(SqlType::HierarchyId)
    } else if name == "json"@ {
        Some(SqlType::Json)
    } else if name == "vector"@ {
        Some(SqlType::Vector { dims: None })
    } else if name == "timestamp"@ || name == "rowversion"@ {
        Some(SqlType::Timestamp)
    } else {
        None
    }
}

/// `len(n)` text: the number, or `max`.
pub open spec fn len_text(len: Option<u32>) -> Seq<char> {
    match len {
        Some(n) => dec(n as nat),
        None => "max"@,
    }
}

/// How a type is written in T-SQL, e.g. `nvarchar(100)` or `decimal(18,4)`.
pub open spec fn sqltype_text(t: SqlType) -> Seq<char> {
    match t {
        SqlType::Bit => "bit"@,
        SqlType::TinyInt => "tinyint"@,
        SqlType::SmallInt => "smallint"@,
        SqlType::Int => "int"@,
        SqlType::BigInt => "bigint"@,
        SqlType::Decimal { precision, scale } => "decimal("@ + dec(precision as nat) + ","@ + dec(
            scale as nat,
        ) + ")"@,
        SqlType::Numeric { precision, scale } => "numeric("@ + dec(precision as nat) + ","@ + dec(
            scale as nat,
        ) + ")"@,
        SqlType::Money => "money"@,
        SqlType::SmallMoney => "smallmoney"@,
        SqlType::Float => "float"@,
        SqlType::Real => "real"@,
        SqlType::Date => "date"@,
        SqlType::Time { scale } => "time("@ + dec(scale as nat) + ")"@,
        SqlType::DateTime => "datetime"@,
        SqlType::DateTime2 { scale } => "datetime2("@ + dec(scale as nat) + ")"@,
        SqlType::SmallDateTime => "smalldatetime"@,
        SqlType::DateTimeOffset { scale } => "datetimeoffset("@ + dec(scale as nat) + ")"@,
        SqlType::Char { len } => "char("@ + len_text(len) + ")"@,
        SqlType::VarChar { len } => "varchar("@ + len_text(len) + ")"@,
        SqlType::NChar { len } => "nchar("@ + len_text(len) + ")"@,
        SqlType::NVarChar { len } => "nvarchar("@ + len_text(len) + ")"@,
        SqlType::Text => "text"@,
        SqlType::NText => "ntext"@,
        SqlType::Binary { len } => "binary("@ + len_text(len) + ")"@,
        SqlType::VarBinary { len } => "varbinary("@ + len_text(len) + ")"@,
        SqlType::Image => "image"@,
        SqlType::UniqueIdentifier => "uniqueidentifier"@,
        SqlType::Xml => "xml"@,
        SqlType::SqlVariant => "sql_variant"@,
        SqlType::Geography => "geography"@,
        SqlType::Geometry => "geometry"@,
        SqlType::HierarchyId => "hierarchyid"@,
        SqlType::Json => "json"@,
        SqlType::Vector { dims } => match dims {
            Some(d) => "vector("@ + dec(d as nat) + ")"@,
            None => "vector"@,
        },
        SqlType::Timestamp => "timestamp"@,
        SqlType::Other(s) => s@,
    }
}

fn len_of(bytes: i32, per_char: i32) -> (r: Option<u32>)
    requires
        per_char == 1 || per_char == 2,
    ensures
        r == char_len(bytes, per_char),
{
    if bytes < 0 {
        None
    } else {
        Some((bytes / per_char) as u32)
    }
}

fn eqs(v: &Vec<char>, s: &str) -> (r: bool)
    ensures
        r == (v@ == s@),
{
    crate::text::eq_str(v, s)
}

fn len_chars(len: Option<u32>) -> (r: Vec<char>)
    ensures
        r@ == len_text(len),
{
    match len {
        Some(n) => dec_u64(n as u64),
        None => crate::text::chars_of("max"),
    }
}

fn wrap(prefix: &str, inner: &Vec<char>) -> (r: Vec<char>)
    ensures
        r@ == prefix@ + inner@ + ")"@,
{
    let mut v = crate::text::chars_of(prefix);
    push_all(&mut v, inner);
    push_str(&mut v, ")");
    v
}

impl SqlType {
    /// Read a `sys.types` name (any case) plus length/precision/scale. `max_length` is in bytes
    /// (-1 = max); for the n-types the character count is half of it.
    pub fn from_catalog(name: &str, max_length: i32, precision: u8, scale: u8) -> (r: Self)
        ensures
            match catalog_type(ascii_lower(name@), max_length, precision, scale) {
                Some(t) => r == t,
                None => r matches SqlType::Other(s) && s@ == ascii_lower(name@),
            },
    {
        let n = lower_of(name);
        if eqs(&n, "bit") {
            SqlType::Bit
        } else if eqs(&n, "tinyint") {
            SqlType::TinyInt
        } else if eqs(&n, "smallint") {
            SqlType::SmallInt
        } else if eqs(&n, "int") {
            SqlType::Int
        } else if eqs(&n, "bigint") {
            SqlType::BigInt
        } else if eqs(&n, "decimal") {
            SqlType::Decimal { precision, scale }
        } else if eqs(&n, "numeric") {
            SqlType::Numeric { precision, scale }
        } else if eqs(&n, "money") {
            SqlType::Money
        } else if eqs(&n, "smallmoney") {
            SqlType::SmallMoney
        } else if eqs(&n, "float") {
            SqlType::Float
        } else if eqs(&n, "real") {
            SqlType::Real
        } else if eqs(&n, "date") {
            SqlType::Date
        } else if eqs(&n, "time") {
            SqlType::Time { scale }
        } else if eqs(&n, "datetime") {
            SqlType::DateTime
        } else if eqs(&n, "datetime2") {
            SqlType::DateTime2 { scale }
        } else if eqs(&n, "smalldatetime") {
            SqlType::SmallDateTime
        } else if eqs(&n, "datetimeoffset") {
            SqlType::DateTimeOffset { scale }
        } else if eqs(&n, "char") {
            SqlType::Char { len: len_of(max_length, 1) }
        } else if eqs(&n, "varchar") {
            SqlType::VarChar { len: len_of(max_length, 1) }
        } else if eqs(&n, "nchar") {
            SqlType::NChar { len: len_of(max_length, 2) }
        } else if eqs(&n, "nvarchar") {
            SqlType::NVarChar { len: len_of(max_length, 2) }
        } else if eqs(&n, "text") {
            SqlType::Text
        } else if eqs(&n, "ntext") {
            SqlType::NText
        } else if eqs(&n, "binary") {
            SqlType::Binary { len: len_of(max_length, 1) }
        } else if eqs(&n, "varbinary") {
            SqlType::VarBinary { len: len_of(max_length, 1) }
        } else if eqs(&n, "image") {
            SqlType::Image
        } else if eqs(&n, "uniqueidentifier") {
            SqlType::UniqueIdentifier
        } else if eqs(&n, "xml") {
            SqlType::Xml
        } else if eqs(&n, "sql_variant") {
            SqlType::SqlVariant
        } else if eqs(&n, "geography") {
            SqlType::Geography
        } else if eqs(&n, "geometry") {
            SqlType::Geometry
        } else if eqs(&n, "hierarchyid") {
            SqlType::HierarchyId
        } else if eqs(&n, "json") {
            SqlType::Json
        } else if eqs(&n, "vector") {
            SqlType::Vector { dims: None }
        } else if eqs(&n, "timestamp") || eqs(&n, "rowversion") {
            SqlType::Timestamp
        } else {
            SqlType::Other(string_of(&n))
        }
    }

    pub fn is_numeric(&self) -> (r: bool)
        ensures
            r == (self is TinyInt || self is SmallInt || self is Int || self is BigInt
                || self is Decimal || self is Numeric || self is Money || self is SmallMoney
                || self is Float || self is Real),
    {
        match self {
            SqlType::TinyInt | SqlType::SmallInt | SqlType::Int | SqlType::BigInt
            | SqlType::Decimal { .. } | SqlType::Numeric { .. } | SqlType::Money
            | SqlType::SmallMoney | SqlType::Float | SqlType::Real => true,
            _ => false,
        }
    }

    pub fn is_string(&self) -> (r: bool)
        ensures
            r == (self is Char || self is VarChar || self is NChar || self is NVarChar
                || self is Text || self is NText || self is Xml || self is Json),
    {
        match self {
            SqlType::Char { .. } | SqlType::VarChar { .. } | SqlType::NChar { .. }
            | SqlType::NVarChar { .. } | SqlType::Text | SqlType::NText | SqlType::Xml
            | SqlType::Json => true,
            _ => false,
        }
    }

    pub fn is_binary(&self) -> (r: bool)
        ensures
            r == (self is Binary || self is VarBinary || self is Image || self is Timestamp),
    {
        match self {
            SqlType::Binary { .. } | SqlType::VarBinary { .. } | SqlType::Image
            | SqlType::Timestamp => true,
            _ => false,
        }
    }

    pub fn is_temporal(&self) -> (r: bool)
        ensures
            r == (self is Date || self is Time || self is DateTime || self is DateTime2
                || self is SmallDateTime || self is DateTimeOffset),
    {
        match self {
            SqlType::Date | SqlType::Time { .. } | SqlType::DateTime | SqlType::DateTime2 { .. }
            | SqlType::SmallDateTime | SqlType::DateTimeOffset { .. } => true,
            _ => false,
        }
    }

    /// Numbers are right-aligned in grids.
    pub fn right_align(&self) -> (r: bool)
        ensures
            r == (self is TinyInt || self is SmallInt || self is Int || self is BigInt
                || self is Decimal || self is Numeric || self is Money || self is SmallMoney
                || self is Float || self is Real),
    {
        self.is_numeric()
    }

    /// The T-SQL spelling, e.g. `nvarchar(100)`, `varbinary(max)`, `decimal(18,4)`.
    pub fn type_text(&self) -> (r: String)
        ensures
            r@ == sqltype_text(*self),
    {
        let v: Vec<char> = match self {
            SqlType::Bit => crate::text::chars_of("bit"),
            SqlType::TinyInt => crate::text::chars_of("tinyint"),
            SqlType::SmallInt => crate::text::chars_of("smallint"),
            SqlType::Int => crate::text::chars_of("int"),
            SqlType::BigInt => crate::text::chars_of("bigint"),
            SqlType::Decimal { precision, scale } => {
                let mut r = crate::text::chars_of("decimal(");
                let p = dec_u64(*precision as u64);
                push_all(&mut r, &p);
                push_str(&mut r, ",");
                let s = dec_u64(*scale as u64);
                push_all(&mut r, &s);
                push_str(&mut r, ")");
                r
            },
            SqlType::Numeric { precision, scale } => {
                let mut r = crate::text::chars_of("numeric(");
                let p = dec_u64(*precision as u64);
                push_all(&mut r, &p);
                push_str(&mut r, ",");
                let s = dec_u64(*scale as u64);
                push_all(&mut r, &s);
                push_str(&mut r, ")");
                r
            },
            SqlType::Money => crate::text::chars_of("money"),
            SqlType::SmallMoney => crate::text::chars_of("smallmoney"),
            SqlType::Float => crate::text::chars_of("float"),
            SqlType::Real => crate::text::chars_of("real"),
            SqlType::Date => crate::text::chars_of("date"),
            SqlType::Time { scale } => wrap("time(", &dec_u64(*scale as u64)),
            SqlType::DateTime => crate::text::chars_of("datetime"),
            SqlType::DateTime2 { scale } => wrap("datetime2(", &dec_u64(*scale as u64)),
            SqlType::SmallDateTime => crate::text::chars_of("smalldatetime"),
            SqlType::DateTimeOffset { scale } => wrap("datetimeoffset(", &dec_u64(*scale as u64)),
            SqlType::Char { len } => wrap("char(", &len_chars(*len)),
            SqlType::VarChar { len } => wrap("varchar(", &len_chars(*len)),
            SqlType::NChar { len } => wrap("nchar(", &len_chars(*len)),
            SqlType::NVarChar { len } => wrap("nvarchar(", &len_chars(*len)),
            SqlType::Text => crate::text::chars_of("text"),
            SqlType::NText => crate::text::chars_of("ntext"),
            SqlType::Binary { len } => wrap("binary(", &len_chars(*len)),
            SqlType::VarBinary { len } => wrap("varbinary(", &len_chars(*len)),
            SqlType::Image => crate::text::chars_of("image"),
            SqlType::UniqueIdentifier => crate::text::chars_of("uniqueidentifier"),
            SqlType::Xml => crate::text::chars_of("xml"),
            SqlType::SqlVariant => crate::text::chars_of("sql_variant"),
            SqlType::Geography => crate::text::chars_of("geography"),
            SqlType::Geometry => crate::text::chars_of("geometry"),
            SqlType::HierarchyId => crate::text::chars_of("hierarchyid"),
            SqlType::Json => crate::text::chars_of("json"),
            SqlType::Vector { dims } => match dims {
                Some(d) => wrap("vector(", &dec_u64(*d as u64)),
                None => crate::text::chars_of("vector"),
            },
            SqlType::Timestamp => crate::text::chars_of("timestamp"),
            SqlType::Other(s) => crate::text::chars_of(s.as_str()),
        };
        string_of(&v)
    }
}

/// The Arrow column type a SQL type is exported as (the `arrow_schema::DataType` of the same
/// name; timestamps without a zone unless marked `Utc`).
#[derive(Clone, Copy, Debug, PartialEq, Eq, Structural)]
pub enum ArrowType {
    Boolean,
    UInt8,
    Int16,
    Int32,
    Int64,
    Decimal128(u8, i8),
    Float64,
    Float32,
    Date32,
    Time64Nanosecond,
    TimestampMillisecond,
    TimestampNanosecond,
    TimestampNanosecondUtc,
    Utf8,
    LargeUtf8,
    Binary,
    LargeBinary,
}

/// The export mapping. Exact numerics keep precision and scale; money is (19,4) and
/// smallmoney (10,4); `max` strings and binaries become the large variants.
pub open spec fn arrow_of(t: SqlType) -> ArrowType {
    match t {
        SqlType::Bit => ArrowType::Boolean,
        SqlType::TinyInt => ArrowType::UInt8,
        SqlType::SmallInt => ArrowType::Int16,
        SqlType::Int => ArrowType::Int32,
        SqlType::BigInt => ArrowType::Int64,
        SqlType::Decimal { precision, scale } => ArrowType::Decimal128(precision, scale as i8),
        SqlType::Numeric { precision, scale } => ArrowType::Decimal128(precision, scale as i8),
        SqlType::Money => ArrowType::Decimal128(19, 4),
        SqlType::SmallMoney => ArrowType::Decimal128(10, 4),
        SqlType::Float => ArrowType::Float64,
        SqlType::Real => ArrowType::Float32,
        SqlType::Date => ArrowType::Date32,
        SqlType::Time { .. } => ArrowType::Time64Nanosecond,
        SqlType::DateTime => ArrowType::TimestampMillisecond,
        SqlType::SmallDateTime => ArrowType::TimestampMillisecond,
        SqlType::DateTime2 { .. } => ArrowType::TimestampNanosecond,
        SqlType::DateTimeOffset { .. } => ArrowType::TimestampNanosecondUtc,
        SqlType::Char { .. } => ArrowType::Utf8,
        SqlType::NChar { .. } => ArrowType::Utf8,
        SqlType::VarChar { len } => if len is Some { ArrowType::Utf8 } else { ArrowType::LargeUtf8 },
        SqlType::NVarChar { len } => if len is Some { ArrowType::Utf8 } else { ArrowType::LargeUtf8 },
        SqlType::Text => ArrowType::LargeUtf8,
        SqlType::NText => ArrowType::LargeUtf8,
        SqlType::Xml => ArrowType::LargeUtf8,
        SqlType::Json => ArrowType::LargeUtf8,
        SqlType::Binary { .. } => ArrowType::Binary,
        SqlType::Timestamp => ArrowType::Binary,
        SqlType::VarBinary { len } => if len is Some { ArrowType::Binary } else { ArrowType::LargeBinary },
        SqlType::Image => ArrowType::LargeBinary,
        SqlType::Geography => ArrowType::LargeBinary,
        SqlType::Geometry => ArrowType::LargeBinary,
        SqlType::HierarchyId => ArrowType::LargeBinary,
        SqlType::UniqueIdentifier => ArrowType::Utf8,
        SqlType::SqlVariant => ArrowType::Utf8,
        SqlType::Vector { .. } => ArrowType::LargeUtf8,
        SqlType::Other(_) => ArrowType::LargeUtf8,
    }
}

impl SqlType {
    /// The Arrow type this column is exported as.
    pub fn arrow_type(&self) -> (r: ArrowType)
        ensures
            r == arrow_of(*self),
    {
        match self {
            SqlType::Bit => ArrowType::Boolean,
            SqlType::TinyInt => ArrowType::UInt8,
            SqlType::SmallInt => ArrowType::Int16,
            SqlType::Int => ArrowType::Int32,
            SqlType::BigInt => ArrowType::Int64,
            SqlType::Decimal { precision, scale } => ArrowType::Decimal128(*precision, *scale as i8),
            SqlType::Numeric { precision, scale } => ArrowType::Decimal128(*precision, *scale as i8),
            SqlType::Money => ArrowType::Decimal128(19, 4),
            SqlType::SmallMoney => ArrowType::Decimal128(10, 4),
            SqlType::Float => ArrowType::Float64,
            SqlType::Real => ArrowType::Float32,
            SqlType::Date => ArrowType::Date32,
            SqlType::Time { .. } => ArrowType::Time64Nanosecond,
            SqlType::DateTime | SqlType::SmallDateTime => ArrowType::TimestampMillisecond,
            SqlType::DateTime2 { .. } => ArrowType::TimestampNanosecond,
            SqlType::DateTimeOffset { .. } => ArrowType::TimestampNanosecondUtc,
            SqlType::Char { .. } | SqlType::NChar { .. } => ArrowType::Utf8,
            SqlType::VarChar { len } | SqlType::NVarChar { len } => match len {
                Some(_) => ArrowType::Utf8,
                None => ArrowType::LargeUtf8,
            },
            SqlType::Text | SqlType::NText | SqlType::Xml | SqlType::Json => ArrowType::LargeUtf8,
            SqlType::Binary { .. } | SqlType::Timestamp => ArrowType::Binary,
            SqlType::VarBinary { len } => match len {
                Some(_) => ArrowType::Binary,
                None => ArrowType::LargeBinary,
            },
            SqlType::Image | SqlType::Geography | SqlType::Geometry | SqlType::HierarchyId => ArrowType::LargeBinary,
            SqlType::UniqueIdentifier | SqlType::SqlVariant => ArrowType::Utf8,
            SqlType::Vector { .. } | SqlType::Other(_) => ArrowType::LargeUtf8,
        }
    }
}

/// `str::to_ascii_uppercase`.
pub open spec fn ascii_upper(s: Seq<char>) -> Seq<char> {
    s.map_values(
        |c: char|
            if 'a' <= c && c <= 'z' {
                ((c as u32) - 32) as char
            } else {
                c
            },
    )
}

/// Type names that differ only in ASCII case read as the same type: `from_catalog` looks only
/// at the lower-cased name (an unknown name is kept lower-cased), so a name and its upper-cased
/// form give the same type, and so do any two names equal up to ASCII case.
pub proof fn law_catalog_name_case(a: Seq<char>, b: Seq<char>, max_length: i32, precision: u8, scale: u8)
    requires
        ascii_lower(a) == ascii_lower(b),
    ensures
        ascii_lower(ascii_upper(a)) == ascii_lower(a),
        catalog_type(ascii_lower(ascii_upper(a)), max_length, precision, scale) == catalog_type(
            ascii_lower(a),
            max_length,
            precision,
            scale,
        ),
        catalog_type(ascii_lower(a), max_length, precision, scale) == catalog_type(
            ascii_lower(b),
            max_length,
            precision,
            scale,
        ),
{
    assert forall|i: int| 0 <= i < a.len() implies #[trigger] ascii_lower(ascii_upper(a))[i] == ascii_lower(a)[i] by {
        let c = a[i];
        if 'a' <= c && c <= 'z' {
            assert((((c as u32) - 32) as char) as u32 == (c as u32) - 32);
        }
    }
    assert(ascii_lower(ascii_upper(a)) =~= ascii_lower(a));
}

proof fn lemma_catalog_names()
    ensures
        "bit"@.len() == 3 && "bit"@[0] == 'b' && "bit"@[1] == 'i' && "bit"@[2] == 't',
        "tinyint"@.len() == 7 && "tinyint"@[0] == 't' && "tinyint"@[1] == 'i' && "tinyint"@[2] == 'n',
        "smallint"@.len() == 8 && "smallint"@[0] == 's' && "smallint"@[1] == 'm' && "smallint"@[2] == 'a',
        "int"@.len() == 3 && "int"@[0] == 'i' && "int"@[1] == 'n' && "int"@[2] == 't',
        "bigint"@.len() == 6 && "bigint"@[0] == 'b' && "bigint"@[1] == 'i' && "bigint"@[2] == 'g',
        "decimal"@.len() == 7 && "decimal"@[0] == 'd' && "decimal"@[1] == 'e' && "decimal"@[2] == 'c',
        "numeric"@.len() == 7 && "numeric"@[0] == 'n' && "numeric"@[1] == 'u' && "numeric"@[2] == 'm',
        "money"@.len() == 5 && "money"@[0] == 'm' && "money"@[1] == 'o' && "money"@[2] == 'n',
        "smallmoney"@.len() == 10 && "smallmoney"@[0] == 's' && "smallmoney"@[1] == 'm' && "smallmoney"@[2] == 'a',
        "float"@.len() == 5 && "float"@[0] == 'f' && "float"@[1] == 'l' && "float"@[2] == 'o',
        "real"@.len() == 4 && "real"@[0] == 'r' && "real"@[1] == 'e' && "real"@[2] == 'a',
        "date"@.len() == 4 && "date"@[0] == 'd' && "date"@[1] == 'a' && "date"@[2] == 't',
        "time"@.len() == 4 && "time"@[0] == 't' && "time"@[1] == 'i' && "time"@[2] == 'm',
        "datetime"@.len() == 8 && "datetime"@[0] == 'd' && "datetime"@[1] == 'a' && "datetime"@[2] == 't',
        "datetime2"@.len() == 9 && "datetime2"@[0] == 'd' && "datetime2"@[1] == 'a' && "datetime2"@[2] == 't',
        "smalldatetime"@.len() == 13 && "smalldatetime"@[0] == 's' && "smalldatetime"@[1] == 'm' && "smalldatetime"@[2] == 'a',
        "datetimeoffset"@.len() == 14 && "datetimeoffset"@[0] == 'd' && "datetimeoffset"@[1] == 'a' && "datetimeoffset"@[2] == 't',
        "char"@.len() == 4 && "char"@[0] == 'c' && "char"@[1] == 'h' && "char"@[2] == 'a',
        "varchar"@.len() == 7 && "varchar"@[0] == 'v' && "varchar"@[1] == 'a' && "varchar"@[2] == 'r',
        "nchar"@.len() == 5 && "nchar"@[0] == 'n' && "nchar"@[1] == 'c' && "nchar"@[2] == 'h',
        "nvarchar"@.len() == 8 && "nvarchar"@[0] == 'n' && "nvarchar"@[1] == 'v' && "nvarchar"@[2] == 'a',
        "text"@.len() == 4 && "text"@[0] == 't' && "text"@[1] == 'e' && "text"@[2] == 'x',
        "ntext"@.len() == 5 && "ntext"@[0] == 'n' && "ntext"@[1] == 't' && "ntext"@[2] == 'e',
        "binary"@.len() == 6 && "binary"@[0] == 'b' && "binary"@[1] == 'i' && "binary"@[2] == 'n',
        "varbinary"@.len() == 9 && "varbinary"@[0] == 'v' && "varbinary"@[1] == 'a' && "varbinary"@[2] == 'r',
        "image"@.len() == 5 && "image"@[0] == 'i' && "image"@[1] == 'm' && "image"@[2] == 'a',
        "uniqueidentifier"@.len() == 16 && "uniqueidentifier"@[0] == 'u' && "uniqueidentifier"@[1] == 'n' && "uniqueidentifier"@[2] == 'i',
        "xml"@.len() == 3 && "xml"@[0] == 'x' && "xml"@[1] == 'm' && "xml"@[2] == 'l',
        "sql_variant"@.len() == 11 && "sql_variant"@[0] == 's' && "sql_variant"@[1] == 'q' && "sql_variant"@[2] == 'l',
        "geography"@.len() == 9 && "geography"@[0] == 'g' && "geography"@[1] == 'e' && "geography"@[2] == 'o',
        "geometry"@.len() == 8 && "geometry"@[0] == 'g' && "geometry"@[1] == 'e' && "geometry"@[2] == 'o',
        "hierarchyid"@.len() == 11 && "hierarchyid"@[0] == 'h' && "hierarchyid"@[1] == 'i' && "hierarchyid"@[2] == 'e',
        "json"@.len() == 4 && "json"@[0] == 'j' && "json"@[1] == 's' && "json"@[2] == 'o',
        "vector"@.len() == 6 && "vector"@[0] == 'v' && "vector"@[1] == 'e' && "vector"@[2] == 'c',
        "timestamp"@.len() == 9 && "timestamp"@[0] == 't' && "timestamp"@[1] == 'i' && "timestamp"@[2] == 'm',
        "rowversion"@.len() == 10 && "rowversion"@[0] == 'r' && "rowversion"@[1] == 'o' && "rowversion"@[2] == 'w',
{
    reveal_strlit("bit");
    reveal_strlit("tinyint");
    reveal_strlit("smallint");
    reveal_strlit("int");
    reveal_strlit("bigint");
    reveal_strlit("decimal");
    reveal_strlit("numeric");
    reveal_strlit("money");
    reveal_strlit("smallmoney");
    reveal_strlit("float");
    reveal_strlit("real");
    reveal_strlit("date");
    reveal_strlit("time");
    reveal_strlit("datetime");
    reveal_strlit("datetime2");
    reveal_strlit("smalldatetime");
    reveal_strlit("datetimeoffset");
    reveal_strlit("char");
    reveal_strlit("varchar");
    reveal_strlit("nchar");
    reveal_strlit("nvarchar");
    reveal_strlit("text");
    reveal_strlit("ntext");
    reveal_strlit("binary");
    reveal_strlit("varbinary");
    reveal_strlit("image");
    reveal_strlit("uniqueidentifier");
    reveal_strlit("xml");
    reveal_strlit("sql_variant");
    reveal_strlit("geography");
    reveal_strlit("geometry");
    reveal_strlit("hierarchyid");
    reveal_strlit("json");
    reveal_strlit("vector");
    reveal_strlit("timestamp");
    reveal_strlit("rowversion");
}

/// How a type name is spelled in its T-SQL text: the name itself, or the name and then `(`.
pub open spec fn spelled_as(text: Seq<char>, name: Seq<char>) -> bool {
    text == name || (text.len() > name.len() && text.take(name.len() as int) == name && text[name.len() as int]
        == '(')
}

proof fn lemma_paren(text: Seq<char>, name: Seq<char>)
    requires
        text.len() > name.len(),
        text.take((name.len() + 1) as int) == name.push('('),
    ensures
        spelled_as(text, name),
{
    assert(text.take(name.len() as int) =~= text.take((name.len() + 1) as int).take(name.len() as int));
    assert(name.push('(').take(name.len() as int) =~= name);
    assert(text[name.len() as int] == text.take((name.len() + 1) as int)[name.len() as int]);
}

/// Reading a listed `sys.types` name gives the type written with that name in T-SQL: its text
/// is the name, or the name followed by its length, precision or scale in brackets (so
/// `bigint` reads as `bigint`, never `int`, and `date` never as `datetime`). `rowversion` is
/// the one alias: it reads as `timestamp`.
pub proof fn law_catalog_spelling(name: Seq<char>, max_length: i32, precision: u8, scale: u8)
    requires
        catalog_type(name, max_length, precision, scale) is Some,
        name != "rowversion"@,
    ensures
        spelled_as(sqltype_text(catalog_type(name, max_length, precision, scale).unwrap()), name),
{
    lemma_catalog_names();
    let t = sqltype_text(catalog_type(name, max_length, precision, scale).unwrap());
    if name == "decimal"@ {
        reveal_strlit("decimal(");
        reveal_strlit("decimal");
        let rest = dec(precision as nat) + ","@ + dec(scale as nat) + ")"@;
        assert(t =~= "decimal("@ + rest);
        assert(("decimal("@ + rest).take(8) =~= "decimal("@);
        assert("decimal("@ =~= "decimal"@.push('('));
        lemma_paren(t, "decimal"@);
    } else if name == "numeric"@ {
        reveal_strlit("numeric(");
        reveal_strlit("numeric");
        let rest = dec(precision as nat) + ","@ + dec(scale as nat) + ")"@;
        assert(t =~= "numeric("@ + rest);
        assert(("numeric("@ + rest).take(8) =~= "numeric("@);
        assert("numeric("@ =~= "numeric"@.push('('));
        lemma_paren(t, "numeric"@);
    } else if name == "time"@ {
        reveal_strlit("time(");
        reveal_strlit("time");
        let rest = dec(scale as nat) + ")"@;
        assert(t =~= "time("@ + rest);
        assert(("time("@ + rest).take(5) =~= "time("@);
        assert("time("@ =~= "time"@.push('('));
        lemma_paren(t, "time"@);
    } else if name == "datetime2"@ {
        reveal_strlit("datetime2(");
        reveal_strlit("datetime2");
        let rest = dec(scale as nat) + ")"@;
        assert(t =~= "datetime2("@ + rest);
        assert(("datetime2("@ + rest).take(10) =~= "datetime2("@);
        assert("datetime2("@ =~= "datetime2"@.push('('));
        lemma_paren(t, "datetime2"@);
    } else if name == "datetimeoffset"@ {
        reveal_strlit("datetimeoffset(");
        reveal_strlit("datetimeoffset");
        let rest = dec(scale as nat) + ")"@;
        assert(t =~= "datetimeoffset("@ + rest);
        assert(("datetimeoffset("@ + rest).take(15) =~= "datetimeoffset("@);
        assert("datetimeoffset("@ =~= "datetimeoffset"@.push('('));
        lemma_paren(t, "datetimeoffset"@);
    } else if name == "char"@ {
        reveal_strlit("char(");
        reveal_strlit("char");
        let rest = len_text(char_len(max_length, 1)) + ")"@;
        assert(t =~= "char("@ + rest);
        assert(("char("@ + rest).take(5) =~= "char("@);
        assert("char("@ =~= "char"@.push('('));
        lemma_paren(t, "char"@);
    } else if name == "varchar"@ {
        reveal_strlit("varchar(");
        reveal_strlit("varchar");
        let rest = len_text(char_len(max_length, 1)) + ")"@;
        assert(t =~= "varchar("@ + rest);
        assert(("varchar("@ + rest).take(8) =~= "varchar("@);
        assert("varchar("@ =~= "varchar"@.push('('));
        lemma_paren(t, "varchar"@);
    } else if name == "nchar"@ {
        reveal_strlit("nchar(");
        reveal_strlit("nchar");
        let rest = len_text(char_len(max_length, 2)) + ")"@;
        assert(t =~= "nchar("@ + rest);
        assert(("nchar("@ + rest).take(6) =~= "nchar("@);
        assert("nchar("@ =~= "nchar"@.push('('));
        lemma_paren(t, "nchar"@);
    } else if name == "nvarchar"@ {
        reveal_strlit("nvarchar(");
        reveal_strlit("nvarchar");
        let rest = len_text(char_len(max_length, 2)) + ")"@;
        assert(t =~= "nvarchar("@ + rest);
        assert(("nvarchar("@ + rest).take(9) =~= "nvarchar("@);
        assert("nvarchar("@ =~= "nvarchar"@.push('('));
        lemma_paren(t, "nvarchar"@);
    } else if name == "binary"@ {
        reveal_strlit("binary(");
        reveal_strlit("binary");
        let rest = len_text(char_len(max_length, 1)) + ")"@;
        assert(t =~= "binary("@ + rest);
        assert(("binary("@ + rest).take(7) =~= "binary("@);
        assert("binary("@ =~= "binary"@.push('('));
        lemma_paren(t, "binary"@);
    } else if name == "varbinary"@ {
        reveal_strlit("varbinary(");
        reveal_strlit("varbinary");
        let rest = len_text(char_len(max_length, 1)) + ")"@;
        assert(t =~= "varbinary("@ + rest);
        assert(("varbinary("@ + rest).take(10) =~= "varbinary("@);
        assert("varbinary("@ =~= "varbinary"@.push('('));
        lemma_paren(t, "varbinary"@);
    }
}

/// The length and scale rules of the catalog: `char`, `varchar`, `binary` and `varbinary` take
/// `max_length` bytes as their length, `nchar` and `nvarchar` half of it (two bytes a
/// character), a negative `max_length` meaning `max` (no length); `decimal` and `numeric` keep
/// precision and scale; `time`, `datetime2` and `datetimeoffset` keep the scale.
pub proof fn law_catalog_families(max_length: i32, precision: u8, scale: u8)
    ensures
        ({
            let one = if max_length >= 0 {
                Some(max_length as u32)
            } else {
                None
            };
            let two = if max_length >= 0 {
                Some((max_length / 2) as u32)
            } else {
                None
            };
            &&& catalog_type("char"@, max_length, precision, scale) == Some(SqlType::Char { len: one })
            &&& catalog_type("varchar"@, max_length, precision, scale) == Some(SqlType::VarChar { len: one })
            &&& catalog_type("binary"@, max_length, precision, scale) == Some(SqlType::Binary { len: one })
            &&& catalog_type("varbinary"@, max_length, precision, scale) == Some(
                SqlType::VarBinary { len: one },
            )
            &&& catalog_type("nchar"@, max_length, precision, scale) == Some(SqlType::NChar { len: two })
            &&& catalog_type("nvarchar"@, max_length, precision, scale) == Some(SqlType::NVarChar { len: two })
            &&& catalog_type("decimal"@, max_length, precision, scale) == Some(
                SqlType::Decimal { precision, scale },
            )
            &&& catalog_type("numeric"@, max_length, precision, scale) == Some(
                SqlType::Numeric { precision, scale },
            )
            &&& catalog_type("time"@, max_length, precision, scale) == Some(SqlType::Time { scale })
            &&& catalog_type("datetime2"@, max_length, precision, scale) == Some(SqlType::DateTime2 { scale })
            &&& catalog_type("datetimeoffset"@, max_length, precision, scale) == Some(
                SqlType::DateTimeOffset { scale },
            )
        }),
{
    lemma_catalog_names();
}

} // verus!
