//! Schema objects, identifier quoting, columns, and the per-database catalog snapshot.

use crate::sqltype::{sqltype_text, SqlType};
use crate::text::{ascii_lower, chars_of, eq_chars, is_ascii_alnum, is_ascii_alpha, lower_of, push_all, push_str, string_of};
use vstd::prelude::*;

verus! {

broadcast use vstd::string::group_string_axioms;

#[derive(Clone, Copy, Debug, PartialEq, Eq, Hash, Structural)]
pub enum ObjectKind {
    Database,
    Schema,
    Table,
    View,
    Procedure,
    ScalarFunction,
    TableFunction,
    AggregateFunction,
    Synonym,
    Sequence,
    TableType,
    Column,
    Parameter,
    Index,
    Key,
    Constraint,
    Trigger,
}

/// The label shown for a kind.
pub open spec fn kind_label(k: ObjectKind) -> Seq<char> {
    match k {
        ObjectKind::Database => "Database"@,
        ObjectKind::Schema => "Schema"@,
        ObjectKind::Table => "Table"@,
        ObjectKind::View => "View"@,
        ObjectKind::Procedure => "Stored Procedure"@,
        ObjectKind::ScalarFunction => "Scalar-valued Function"@,
        ObjectKind::TableFunction => "Table-valued Function"@,
        ObjectKind::AggregateFunction => "Aggregate Function"@,
        ObjectKind::Synonym => "Synonym"@,
        ObjectKind::Sequence => "Sequence"@,
        ObjectKind::TableType => "User-defined Table Type"@,
        ObjectKind::Column => "Column"@,
        ObjectKind::Parameter => "Parameter"@,
        ObjectKind::Index => "Index"@,
        ObjectKind::Key => "Key"@,
        ObjectKind::Constraint => "Constraint"@,
        ObjectKind::Trigger => "Trigger"@,
    }
}

/// The kind for a (trimmed) `sys.objects.type` code.
pub open spec fn kind_of_code(code: Seq<char>) -> Option<ObjectKind> {
    if code == "U"@ {
        Some(ObjectKind::Table)
    } else if code == "V"@ {
        Some(ObjectKind::View)
    } else if code == "P"@ || code == "PC"@ || code == "X"@ {
        Some(ObjectKind::Procedure)
    } else if code == "FN"@ || code == "FS"@ {
        Some(ObjectKind::ScalarFunction)
    } else if code == "IF"@ || code == "TF"@ || code == "FT"@ {
        Some(ObjectKind::TableFunction)
    } else if code == "AF"@ {
        Some(ObjectKind::AggregateFunction)
    } else if code == "SN"@ {
        Some(ObjectKind::Synonym)
    } else if code == "SO"@ {
        Some(ObjectKind::Sequence)
    } else if code == "TT"@ {
        Some(ObjectKind::TableType)
    } else if code == "TR"@ || code == "TA"@ {
        Some(ObjectKind::Trigger)
    } else {
        None
    }
}

impl ObjectKind {
    pub fn label(&self) -> (r: &'static str)
        ensures
            r@ == kind_label(*self),
    {
        match self {
            ObjectKind::Database => "Database",
            ObjectKind::Schema => "Schema",
            ObjectKind::Table => "Table",
            ObjectKind::View => "View",
            ObjectKind::Procedure => "Stored Procedure",
            ObjectKind::ScalarFunction => "Scalar-valued Function",
            ObjectKind::TableFunction => "Table-valued Function",
            ObjectKind::AggregateFunction => "Aggregate Function",
            ObjectKind::Synonym => "Synonym",
            ObjectKind::Sequence => "Sequence",
            ObjectKind::TableType => "User-defined Table Type",
            ObjectKind::Column => "Column",
            ObjectKind::Parameter => "Parameter",
            ObjectKind::Index => "Index",
            ObjectKind::Key => "Key",
            ObjectKind::Constraint => "Constraint",
            ObjectKind::Trigger => "Trigger",
        }
    }

    /// `sys.objects.type` codes (surrounding whitespace ignored) that map to a kind.
    pub fn from_sys_type(code: &str) -> (r: Option<Self>)
        ensures
            r == kind_of_code(crate::text::trim(code@)),
    {
        let c = crate::text::trimmed_of(code);
        let e = |s: &str| -> (b: bool)
            ensures
                b == (c@ == s@),
            { crate::text::eq_str(&c, s) };
        if e("U") {
            Some(ObjectKind::Table)
        } else if e("V") {
            Some(ObjectKind::View)
        } else if e("P") || e("PC") || e("X") {
            Some(ObjectKind::Procedure)
        } else if e("FN") || e("FS") {
            Some(ObjectKind::ScalarFunction)
        } else if e("IF") || e("TF") || e("FT") {
            Some(ObjectKind::TableFunction)
        } else if e("AF") {
            Some(ObjectKind::AggregateFunction)
        } else if e("SN") {
            Some(ObjectKind::Synonym)
        } else if e("SO") {
            Some(ObjectKind::Sequence)
        } else if e("TT") {
            Some(ObjectKind::TableType)
        } else if e("TR") || e("TA") {
            Some(ObjectKind::Trigger)
        } else {
            None
        }
    }
}

/// A fully qualified schema object.
#[derive(Clone, Debug, PartialEq, Eq, Hash)]
pub struct ObjectRef {
    pub database: String,
    pub schema: String,
    pub name: String,
    pub kind: ObjectKind,
    pub object_id: Option<i32>,
}

/// `ident` with every `]` doubled, for use inside `[...]`.
pub open spec fn bracket_spec(s: Seq<char>) -> Seq<char>
    decreases s.len(),
{
    if s.len() == 0 {
        seq![]
    } else if s.last() == ']' {
        bracket_spec(s.drop_last()) + seq![']', ']']
    } else {
        bracket_spec(s.drop_last()).push(s.last())
    }
}

/// `t` with each `]]`, read from the left, replaced by one `]` (`str::replace("]]", "]")`).
pub open spec fn unbracket(t: Seq<char>) -> Seq<char>
    decreases t.len(),
{
    if t.len() >= 2 && t[0] == ']' && t[1] == ']' {
        seq![']'] + unbracket(t.skip(2))
    } else if t.len() == 0 {
        seq![]
    } else {
        seq![t[0]] + unbracket(t.skip(1))
    }
}

/// Read from the left, every `]` of `t` comes with a second one right after it: every run of `]`
/// in `t` has even length.
pub open spec fn doubled_closers(t: Seq<char>) -> bool
    decreases t.len(),
{
    if t.len() == 0 {
        true
    } else if t[0] == ']' {
        t.len() >= 2 && t[1] == ']' && doubled_closers(t.skip(2))
    } else {
        doubled_closers(t.skip(1))
    }
}

/// What bracketing writes for one character.
pub open spec fn bracket_char(c: char) -> Seq<char> {
    if c == ']' {
        seq![']', ']']
    } else {
        seq![c]
    }
}

proof fn lemma_bracket_front(s: Seq<char>)
    requires
        s.len() > 0,
    ensures
        bracket_spec(s) == bracket_char(s[0]) + bracket_spec(s.skip(1)),
    decreases s.len(),
{
    if s.len() == 1 {
        assert(s.drop_last() =~= Seq::<char>::empty());
        assert(s.skip(1) =~= Seq::<char>::empty());
        assert(bracket_spec(s) =~= bracket_char(s[0]) + bracket_spec(s.skip(1)));
    } else {
        lemma_bracket_front(s.drop_last());
        assert(s.drop_last().skip(1) =~= s.skip(1).drop_last());
        assert(s.skip(1).last() == s.last());
        assert(s.drop_last()[0] == s[0]);
        if s.last() == ']' {
            assert(bracket_spec(s) =~= bracket_char(s[0]) + bracket_spec(s.skip(1)));
        } else {
            assert(bracket_spec(s) =~= bracket_char(s[0]) + bracket_spec(s.skip(1)));
        }
    }
}

/// Bracketing only doubles each `]`: replacing each `]]` by `]` again gives the identifier, the
/// text grows by one character per `]`, and every run of `]` in it has even length.
pub proof fn law_bracket_undoes(s: Seq<char>)
    ensures
        unbracket(bracket_spec(s)) == s,
        bracket_spec(s).len() == s.len() + crate::text::count_char(s, ']'),
        doubled_closers(bracket_spec(s)),
    decreases s.len(),
{
    if s.len() > 0 {
        law_bracket_undoes(s.drop_last());
        law_bracket_undoes(s.skip(1));
        lemma_bracket_front(s);
        let rest = bracket_spec(s.skip(1));
        let t = bracket_spec(s);
        if s[0] == ']' {
            assert(t.skip(2) =~= rest);
            assert(unbracket(t) == seq![']'] + unbracket(rest));
            assert(doubled_closers(t));
        } else {
            assert(t.skip(1) =~= rest);
            assert(t[0] == s[0]);
            assert(unbracket(t) == seq![s[0]] + unbracket(rest));
            assert(doubled_closers(t));
        }
        assert(seq![s[0]] + s.skip(1) =~= s);
    }
}

/// An identifier that needs no brackets: non-empty, starting with an ASCII letter or `_`, and
/// made only of ASCII letters, digits, `_`, `$` and `#`.
pub open spec fn is_simple_ident(s: Seq<char>) -> bool {
    &&& s.len() > 0
    &&& (is_ascii_alpha(s[0]) || s[0] == '_')
    &&& forall|i: int|
        0 <= i < s.len() ==> is_ascii_alnum(#[trigger] s[i]) || s[i] == '_' || s[i] == '$' || s[i]
            == '#'
}

pub open spec fn quote_ident_spec(s: Seq<char>) -> Seq<char> {
    if is_simple_ident(s) {
        s
    } else {
        seq!['['] + bracket_spec(s) + seq![']']
    }
}

fn bracket_chars(v: &Vec<char>) -> (r: Vec<char>)
    ensures
        r@ == bracket_spec(v@),
{
    let mut r: Vec<char> = Vec::new();
    let mut i: usize = 0;
    while i < v.len()
        invariant
            i <= v.len(),
            r@ == bracket_spec(v@.take(i as int)),
        decreases v.len() - i,
    {
        let c = v[i];
        if c == ']' {
            r.push(']');
            r.push(']');
        } else {
            r.push(c);
        }
        i = i + 1;
        assert(v@.take(i as int).drop_last() =~= v@.take(i - 1));
        assert(r@ =~= bracket_spec(v@.take(i as int)));
    }
    assert(v@.take(v.len() as int) =~= v@);
    r
}

/// Escape `]` inside a bracketed identifier.
pub fn bracket(ident: &str) -> (r: String)
    ensures
        r@ == bracket_spec(ident@),
{
    let v = chars_of(ident);
    let b = bracket_chars(&v);
    string_of(&b)
}

/// Quote an identifier only if it needs it.
pub fn quote_ident(ident: &str) -> (r: String)
    ensures
        r@ == quote_ident_spec(ident@),
{
    let v = chars_of(ident);
    let mut simple = v.len() > 0 && ({
        let c = v[0];
        ('a' <= c && c <= 'z') || ('A' <= c && c <= 'Z') || c == '_'
    });
    let mut i: usize = 0;
    while simple && i < v.len()
        invariant
            i <= v.len(),
            simple ==> v@.len() > 0 && (is_ascii_alpha(v@[0]) || v@[0] == '_'),
            simple ==> forall|j: int|
                0 <= j < i ==> is_ascii_alnum(#[trigger] v@[j]) || v@[j] == '_' || v@[j] == '$'
                    || v@[j] == '#',
            !simple ==> !is_simple_ident(v@),
        decreases v.len() - i,
    {
        let c = v[i];
        if !(('a' <= c && c <= 'z') || ('A' <= c && c <= 'Z') || ('0' <= c && c <= '9') || c == '_'
            || c == '$' || c == '#') {
            simple = false;
        }
        i = i + 1;
    }
    if simple {
        string_of(&v)
    } else {
        let mut r: Vec<char> = Vec::new();
        r.push('[');
        let b = bracket_chars(&v);
        push_all(&mut r, &b);
        r.push(']');
        assert(r@ =~= quote_ident_spec(ident@));
        string_of(&r)
    }
}

impl ObjectRef {
    /// `[schema].[name]`, each part escaped.
    pub fn bracketed(&self) -> (r: String)
        ensures
            r@ == seq!['['] + bracket_spec(self.schema@) + seq![']', '.', '['] + bracket_spec(
                self.name@,
            ) + seq![']'],
    {
        let mut r: Vec<char> = Vec::new();
        r.push('[');
        let a = bracket_chars(&chars_of(self.schema.as_str()));
        push_all(&mut r, &a);
        r.push(']');
        r.push('.');
        r.push('[');
        let b = bracket_chars(&chars_of(self.name.as_str()));
        push_all(&mut r, &b);
        r.push(']');
        assert(r@ =~= seq!['['] + bracket_spec(self.schema@) + seq![']', '.', '['] + bracket_spec(
            self.name@,
        ) + seq![']']);
        string_of(&r)
    }

    /// `schema.name`, unescaped.
    pub fn qualified(&self) -> (r: String)
        ensures
            r@ == self.schema@ + seq!['.'] + self.name@,
    {
        let mut r = chars_of(self.schema.as_str());
        r.push('.');
        push_str(&mut r, self.name.as_str());
        string_of(&r)
    }
}

/// A column of a table, view, or result set.
#[derive(Clone, Debug, PartialEq, Eq)]
pub struct ColumnInfo {
    pub name: String,
    pub sql_type: SqlType,
    pub nullable: bool,
    /// 0-based position in the result set / table.
    pub ordinal: usize,
    pub is_identity: bool,
    pub is_computed: bool,
    pub in_primary_key: bool,
    pub default_definition: Option<String>,
    pub collation: Option<String>,
}

impl ColumnInfo {
    pub fn new(name: &str, sql_type: SqlType, nullable: bool, ordinal: usize) -> (r: Self)
        ensures
            r.name@ == name@,
            r.sql_type == sql_type,
            r.nullable == nullable,
            r.ordinal == ordinal,
            !r.is_identity,
            !r.is_computed,
            !r.in_primary_key,
            r.default_definition is None,
            r.collation is None,
    {
        ColumnInfo {
            name: name.to_owned(),
            sql_type,
            nullable,
            ordinal,
            is_identity: false,
            is_computed: false,
            in_primary_key: false,
            default_definition: None,
            collation: None,
        }
    }

    /// `nvarchar(100), null` / `int, not null`.
    pub fn type_label(&self) -> (r: String)
        ensures
            r@ == sqltype_text(self.sql_type) + if self.nullable {
                ", null"@
            } else {
                ", not null"@
            },
    {
        let t = self.sql_type.type_text();
        let mut v = chars_of(t.as_str());
        if self.nullable {
            push_str(&mut v, ", null");
        } else {
            push_str(&mut v, ", not null");
        }
        string_of(&v)
    }
}

#[derive(Clone, Debug, PartialEq, Eq)]
pub struct ParameterInfo {
    pub name: String,
    pub sql_type: SqlType,
    pub is_output: bool,
    pub has_default: bool,
    pub ordinal: usize,
}

#[derive(Clone, Debug, PartialEq, Eq)]
pub struct IndexInfo {
    pub name: String,
    pub is_unique: bool,
    pub is_clustered: bool,
    pub is_primary_key: bool,
    pub is_unique_constraint: bool,
    pub index_type: String,
    /// (name, descending)
    pub key_columns: Vec<(String, bool)>,
    pub included_columns: Vec<String>,
    pub filter: Option<String>,
}

#[derive(Clone, Copy, Debug, PartialEq, Eq, Structural)]
pub enum KeyKind {
    PrimaryKey,
    Unique,
    ForeignKey,
    Check,
    Default,
}

#[derive(Clone, Debug, PartialEq, Eq)]
pub struct KeyInfo {
    pub name: String,
    pub kind: KeyKind,
    pub columns: Vec<String>,
    /// For foreign keys: referenced table and columns.
    pub references: Option<(ObjectRef, Vec<String>)>,
    pub definition: Option<String>,
}

#[derive(Clone, Debug, PartialEq, Eq)]
pub struct DatabaseInfo {
    pub name: String,
    pub is_system: bool,
    pub state: String,
    pub is_read_only: bool,
}

/// A snapshot of one database's objects for completion and the tree.
#[derive(Clone, Debug)]
pub struct DatabaseCatalog {
    pub database: String,
    pub schemas: Vec<String>,
    pub objects: Vec<ObjectRef>,
    /// object_id → columns, filled lazily.
    pub columns: Vec<(i32, Vec<ColumnInfo>)>,
    /// When the snapshot was taken, in milliseconds since the Unix epoch.
    pub refreshed_at: Option<i64>,
}

/// `o` is named `name` (and, when given, lives in `schema`), ignoring ASCII case.
pub open spec fn object_matches(o: ObjectRef, schema: Option<Seq<char>>, name: Seq<char>) -> bool {
    &&& ascii_lower(o.name@) == ascii_lower(name)
    &&& match schema {
        Some(s) => ascii_lower(o.schema@) == ascii_lower(s),
        None => true,
    }
}

impl DatabaseCatalog {
    /// The first object named `name` (in `schema`, if given), ignoring ASCII case.
    pub fn find(&self, schema: Option<&str>, name: &str) -> (r: Option<&ObjectRef>)
        ensures
            match r {
                Some(o) => exists|i: int|
                    0 <= i < self.objects@.len() && *o == self.objects@[i] && object_matches(
                        self.objects@[i],
                        match schema {
                            Some(s) => Some(s@),
                            None => None,
                        },
                        name@,
                    ) && forall|j: int|
                        0 <= j < i ==> !object_matches(
                            #[trigger] self.objects@[j],
                            match schema {
                                Some(s) => Some(s@),
                                None => None,
                            },
                            name@,
                        ),
                None => forall|j: int|
                    0 <= j < self.objects@.len() ==> !object_matches(
                        #[trigger] self.objects@[j],
                        match schema {
                            Some(s) => Some(s@),
                            None => None,
                        },
                        name@,
                    ),
            },
    {
        let ghost sv = match schema {
            Some(s) => Some(s@),
            None => None::<Seq<char>>,
        };
        let name_l = lower_of(name);
        let schema_l: Option<Vec<char>> = match schema {
            Some(s) => Some(lower_of(s)),
            None => None,
        };
        let mut i: usize = 0;
        while i < self.objects.len()
            invariant
                i <= self.objects@.len(),
                name_l@ == ascii_lower(name@),
                match schema_l {
                    Some(l) => sv is Some && l@ == ascii_lower(sv.unwrap()),
                    None => sv is None,
                },
                sv == match schema {
                    Some(s) => Some(s@),
                    None => None::<Seq<char>>,
                },
                forall|j: int| 0 <= j < i ==> !object_matches(#[trigger] self.objects@[j], sv, name@),
            decreases self.objects.len() - i,
        {
            let o = &self.objects[i];
            let on = lower_of(o.name.as_str());
            let hit = eq_chars(&on, &name_l) && match &schema_l {
                Some(l) => {
                    let os = lower_of(o.schema.as_str());
                    eq_chars(&os, l)
                },
                None => true,
            };
            if hit {
                return Some(o);
            }
            i = i + 1;
        }
        None
    }
}

} // verus!
