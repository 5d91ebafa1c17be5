//! The treeboot config schema: decoding a TOML document tree into raw
//! declarations, with the first offending key or value reported.

use vstd::prelude::*;

use crate::config::{FileOperationKind, RawMetadataField, SymlinkMode, SyncCompare};
use crate::text::{concat3, owned, str_eq, string_views};
use crate::toml_doc::{Span, TomlEntry, TomlItem, TomlValue};

verus! {

/// A schema violation and where it stands.
#[derive(Debug)]
pub struct DecodeError {
    /// What is wrong.
    pub message: String,
    /// Where it is written.
    pub span: Span,
}

/// Model of a schema violation.
pub struct DecodeErrorView {
    pub message: Seq<char>,
    pub span: Span,
}

impl View for DecodeError {
    type V = DecodeErrorView;

    open spec fn view(&self) -> DecodeErrorView {
        DecodeErrorView { message: self.message@, span: self.span }
    }
}

/// How a value is described when it has the wrong type.
pub open spec fn unexpected_spec(v: TomlValue) -> Seq<char> {
    match v {
        TomlValue::String(s) => "string \""@ + s@ + "\""@,
        TomlValue::Integer(t) => "integer `"@ + t@ + "`"@,
        TomlValue::Float(t) => "floating point `"@ + t@ + "`"@,
        TomlValue::Boolean(b) => if b {
            "boolean `true`"@
        } else {
            "boolean `false`"@
        },
        TomlValue::Datetime(t) => "datetime `"@ + t@ + "`"@,
        TomlValue::Array(_) => "sequence"@,
        TomlValue::Table(_) => "map"@,
    }
}

fn unexpected_text(v: &TomlValue) -> (res: String)
    ensures
        res@ == unexpected_spec(*v),
{
    match v {
        TomlValue::String(s) => concat3("string \"", s.as_str(), "\""),
        TomlValue::Integer(t) => concat3("integer `", t.as_str(), "`"),
        TomlValue::Float(t) => concat3("floating point `", t.as_str(), "`"),
        TomlValue::Boolean(b) => if *b {
            owned("boolean `true`")
        } else {
            owned("boolean `false`")
        },
        TomlValue::Datetime(t) => concat3("datetime `", t.as_str(), "`"),
        TomlValue::Array(_) => owned("sequence"),
        TomlValue::Table(_) => owned("map"),
    }
}

/// The error for a value of the wrong type.
pub open spec fn invalid_type_spec(item: TomlItem, expected: Seq<char>) -> DecodeErrorView {
    DecodeErrorView {
        message: "invalid type: "@ + unexpected_spec(item.value) + ", expected "@ + expected,
        span: item.span,
    }
}

fn invalid_type(item: &TomlItem, expected: &str) -> (res: DecodeError)
    ensures
        res@ == invalid_type_spec(*item, expected@),
{
    let u = unexpected_text(&item.value);
    DecodeError { message: concat3("invalid type: ", u.as_str(), ", expected "), span: item.span }.with_suffix(expected)
}

impl DecodeError {
    fn with_suffix(self, suffix: &str) -> (res: DecodeError)
        ensures
            res@ == (DecodeErrorView { message: self.message@ + suffix@, span: self.span }),
    {
        let mut m = self.message;
        m.append(suffix);
        DecodeError { message: m, span: self.span }
    }
}

/// The error for an unknown key of a table.
pub open spec fn unknown_field_spec(entry: TomlEntry, expected: Seq<char>) -> DecodeErrorView {
    DecodeErrorView {
        message: "unknown field `"@ + entry.key@ + "`, expected "@ + expected,
        span: entry.key_span,
    }
}

fn unknown_field(entry: &TomlEntry, expected: &str) -> (res: DecodeError)
    ensures
        res@ == unknown_field_spec(*entry, expected@),
{
    DecodeError {
        message: concat3("unknown field `", entry.key.as_str(), "`, expected "),
        span: entry.key_span,
    }.with_suffix(expected)
}

/// The error for a string that names no variant of an enum.
pub open spec fn unknown_variant_spec(item: TomlItem, s: Seq<char>, expected: Seq<char>) -> DecodeErrorView {
    DecodeErrorView {
        message: "unknown variant `"@ + s + "`, expected "@ + expected,
        span: item.span,
    }
}

fn unknown_variant(item: &TomlItem, s: &String, expected: &str) -> (res: DecodeError)
    ensures
        res@ == unknown_variant_spec(*item, s@, expected@),
{
    DecodeError {
        message: concat3("unknown variant `", s.as_str(), "`, expected "),
        span: item.span,
    }.with_suffix(expected)
}

/// The error for an enum value that is neither a string nor a table.
pub open spec fn not_enum_spec(item: TomlItem) -> DecodeErrorView {
    DecodeErrorView { message: "wanted string or table"@, span: item.span }
}

fn not_enum(item: &TomlItem) -> (res: DecodeError)
    ensures
        res@ == not_enum_spec(*item),
{
    DecodeError { message: owned("wanted string or table"), span: item.span }
}

// ---------------------------------------------------------------------------
// Scalars

/// A boolean value.
pub open spec fn decode_bool_spec(item: TomlItem) -> Result<bool, DecodeErrorView> {
    match item.value {
        TomlValue::Boolean(b) => Ok(b),
        _ => Err(invalid_type_spec(item, "a boolean"@)),
    }
}

/// Decodes a boolean value.
pub fn decode_bool(item: &TomlItem) -> (res: Result<bool, DecodeError>)
    ensures
        match res {
            Ok(b) => decode_bool_spec(*item) == Ok::<bool, DecodeErrorView>(b),
            Err(e) => decode_bool_spec(*item) == Err::<bool, DecodeErrorView>(e@),
        },
{
    match &item.value {
        TomlValue::Boolean(b) => Ok(*b),
        _ => Err(invalid_type(item, "a boolean")),
    }
}

/// A string value.
pub open spec fn decode_string_spec(item: TomlItem) -> Result<Seq<char>, DecodeErrorView> {
    match item.value {
        TomlValue::String(s) => Ok(s@),
        _ => Err(invalid_type_spec(item, "a string"@)),
    }
}

/// Decodes a string value.
pub fn decode_string(item: &TomlItem) -> (res: Result<String, DecodeError>)
    ensures
        match res {
            Ok(s) => decode_string_spec(*item) == Ok::<Seq<char>, DecodeErrorView>(s@),
            Err(e) => decode_string_spec(*item) == Err::<Seq<char>, DecodeErrorView>(e@),
        },
{
    match &item.value {
        TomlValue::String(s) => Ok(s.clone()),
        _ => Err(invalid_type(item, "a string")),
    }
}

/// Strings of an array prefix; the first non-string is reported.
pub open spec fn decode_strings_prefix(items: Seq<TomlItem>) -> Result<Seq<Seq<char>>, DecodeErrorView>
    decreases items.len(),
{
    if items.len() == 0 {
        Ok(Seq::empty())
    } else {
        match decode_strings_prefix(items.drop_last()) {
            Ok(acc) => match decode_string_spec(items.last()) {
                Ok(s) => Ok(acc.push(s)),
                Err(e) => Err(e),
            },
            Err(e) => Err(e),
        }
    }
}

/// An array of strings.
pub open spec fn decode_string_list_spec(item: TomlItem) -> Result<Seq<Seq<char>>, DecodeErrorView> {
    match item.value {
        TomlValue::Array(items) => decode_strings_prefix(items@),
        _ => Err(invalid_type_spec(item, "a sequence"@)),
    }
}

/// Decodes an array of strings.
pub fn decode_string_list(item: &TomlItem) -> (res: Result<Vec<String>, DecodeError>)
    ensures
        match res {
            Ok(v) => decode_string_list_spec(*item) == Ok::<Seq<Seq<char>>, DecodeErrorView>(
                string_views(v@),
            ),
            Err(e) => decode_string_list_spec(*item) == Err::<Seq<Seq<char>>, DecodeErrorView>(
                e@,
            ),
        },
{
    match &item.value {
        TomlValue::Array(items) => {
            assert(decode_string_list_spec(*item) == decode_strings_prefix(items@));
            let mut out: Vec<String> = Vec::new();
            let mut i: usize = 0;
            proof {
                assert(items@.take(0) =~= Seq::<TomlItem>::empty());
                assert(string_views(out@) =~= Seq::<Seq<char>>::empty());
            }
            while i < items.len()
                invariant
                    i <= items.len(),
                    decode_string_list_spec(*item) == decode_strings_prefix(items@),
                    decode_strings_prefix(items@.take(i as int)) == Ok::<
                        Seq<Seq<char>>,
                        DecodeErrorView,
                    >(string_views(out@)),
                decreases items.len() - i,
            {
                proof {
                    assert(items@.take(i + 1).drop_last() =~= items@.take(i as int));
                    assert(items@.take(i + 1).last() == items@[i as int]);
                }
                match decode_string(&items[i]) {
                    Ok(s) => {
                        let ghost before = string_views(out@);
                        out.push(s);
                        assert(string_views(out@) =~= before.push(s@));
                    },
                    Err(e) => {
                        proof {
                            assert(decode_strings_prefix(items@.take(i + 1)) == Err::<
                                Seq<Seq<char>>,
                                DecodeErrorView,
                            >(e@));
                            lemma_strings_error_extends(items@, i as int + 1, e@);
                            assert(items@.take(items.len() as int) =~= items@);
                            assert(decode_strings_prefix(items@) == Err::<
                                Seq<Seq<char>>,
                                DecodeErrorView,
                            >(e@));
                        }
                        return Err(e);
                    },
                }
                i = i + 1;
            }
            assert(items@.take(items.len() as int) =~= items@);
            Ok(out)
        },
        _ => Err(invalid_type(item, "a sequence")),
    }
}

proof fn lemma_strings_error_extends(items: Seq<TomlItem>, n: int, e: DecodeErrorView)
    requires
        0 <= n <= items.len(),
        decode_strings_prefix(items.take(n)) == Err::<Seq<Seq<char>>, DecodeErrorView>(e),
    ensures
        decode_strings_prefix(items.take(items.len() as int)) == Err::<
            Seq<Seq<char>>,
            DecodeErrorView,
        >(e),
    decreases items.len() - n,
{
    if n < items.len() {
        assert(items.take(n + 1).drop_last() =~= items.take(n));
        lemma_strings_error_extends(items, n + 1, e);
    }
}

// ---------------------------------------------------------------------------
// Enums written as strings

/// An operation kind: `copy`, `symlink` or `sync`.
pub open spec fn decode_kind_spec(item: TomlItem) -> Result<FileOperationKind, DecodeErrorView> {
    match item.value {
        TomlValue::String(s) => if s@ == "copy"@ {
            Ok(FileOperationKind::Copy)
        } else if s@ == "symlink"@ {
            Ok(FileOperationKind::Symlink)
        } else if s@ == "sync"@ {
            Ok(FileOperationKind::Sync)
        } else {
            Err(unknown_variant_spec(item, s@, "one of `copy`, `symlink`, `sync`"@))
        },
        _ => Err(not_enum_spec(item)),
    }
}

/// Decodes an operation kind.
pub fn decode_kind(item: &TomlItem) -> (res: Result<FileOperationKind, DecodeError>)
    ensures
        match res {
            Ok(k) => decode_kind_spec(*item) == Ok::<FileOperationKind, DecodeErrorView>(k),
            Err(e) => decode_kind_spec(*item) == Err::<FileOperationKind, DecodeErrorView>(e@),
        },
{
    match &item.value {
        TomlValue::String(s) => if str_eq(s.as_str(), "copy") {
            Ok(FileOperationKind::Copy)
        } else if str_eq(s.as_str(), "symlink") {
            Ok(FileOperationKind::Symlink)
        } else if str_eq(s.as_str(), "sync") {
            Ok(FileOperationKind::Sync)
        } else {
            Err(unknown_variant(item, s, "one of `copy`, `symlink`, `sync`"))
        },
        _ => Err(not_enum(item)),
    }
}

/// A sync comparison mode: `metadata` or `checksum`.
pub open spec fn decode_compare_spec(item: TomlItem) -> Result<SyncCompare, DecodeErrorView> {
    match item.value {
        TomlValue::String(s) => if s@ == "metadata"@ {
            Ok(SyncCompare::Metadata)
        } else if s@ == "checksum"@ {
            Ok(SyncCompare::Checksum)
        } else {
            Err(unknown_variant_spec(item, s@, "`metadata` or `checksum`"@))
        },
        _ => Err(not_enum_spec(item)),
    }
}

/// Decodes a sync comparison mode.
pub fn decode_compare(item: &TomlItem) -> (res: Result<SyncCompare, DecodeError>)
    ensures
        match res {
            Ok(k) => decode_compare_spec(*item) == Ok::<SyncCompare, DecodeErrorView>(k),
            Err(e) => decode_compare_spec(*item) == Err::<SyncCompare, DecodeErrorView>(e@),
        },
{
    match &item.value {
        TomlValue::String(s) => if str_eq(s.as_str(), "metadata") {
            Ok(SyncCompare::Metadata)
        } else if str_eq(s.as_str(), "checksum") {
            Ok(SyncCompare::Checksum)
        } else {
            Err(unknown_variant(item, s, "`metadata` or `checksum`"))
        },
        _ => Err(not_enum(item)),
    }
}

/// A symlink mode: `preserve`.
pub open spec fn decode_symlinks_spec(item: TomlItem) -> Result<SymlinkMode, DecodeErrorView> {
    match item.value {
        TomlValue::String(s) => if s@ == "preserve"@ {
            Ok(SymlinkMode::Preserve)
        } else {
            Err(unknown_variant_spec(item, s@, "`preserve`"@))
        },
        _ => Err(not_enum_spec(item)),
    }
}

/// Decodes a symlink mode.
pub fn decode_symlinks(item: &TomlItem) -> (res: Result<SymlinkMode, DecodeError>)
    ensures
        match res {
            Ok(k) => decode_symlinks_spec(*item) == Ok::<SymlinkMode, DecodeErrorView>(k),
            Err(e) => decode_symlinks_spec(*item) == Err::<SymlinkMode, DecodeErrorView>(e@),
        },
{
    match &item.value {
        TomlValue::String(s) => if str_eq(s.as_str(), "preserve") {
            Ok(SymlinkMode::Preserve)
        } else {
            Err(unknown_variant(item, s, "`preserve`"))
        },
        _ => Err(not_enum(item)),
    }
}

/// A written metadata field.
pub open spec fn decode_metadata_spec(item: TomlItem) -> Result<RawMetadataField, DecodeErrorView> {
    match item.value {
        TomlValue::String(s) => if s@ == "permissions"@ {
            Ok(RawMetadataField::Permissions)
        } else if s@ == "owner"@ {
            Ok(RawMetadataField::Owner)
        } else if s@ == "group"@ {
            Ok(RawMetadataField::Group)
        } else if s@ == "ownership"@ {
            Ok(RawMetadataField::Ownership)
        } else {
            Err(
                unknown_variant_spec(
                    item,
                    s@,
                    "one of `permissions`, `owner`, `group`, `ownership`"@,
                ),
            )
        },
        _ => Err(not_enum_spec(item)),
    }
}

/// Decodes a written metadata field.
pub fn decode_metadata(item: &TomlItem) -> (res: Result<RawMetadataField, DecodeError>)
    ensures
        match res {
            Ok(k) => decode_metadata_spec(*item) == Ok::<RawMetadataField, DecodeErrorView>(k),
            Err(e) => decode_metadata_spec(*item) == Err::<RawMetadataField, DecodeErrorView>(e@),
        },
{
    match &item.value {
        TomlValue::String(s) => if str_eq(s.as_str(), "permissions") {
            Ok(RawMetadataField::Permissions)
        } else if str_eq(s.as_str(), "owner") {
            Ok(RawMetadataField::Owner)
        } else if str_eq(s.as_str(), "group") {
            Ok(RawMetadataField::Group)
        } else if str_eq(s.as_str(), "ownership") {
            Ok(RawMetadataField::Ownership)
        } else {
            Err(unknown_variant(item, s, "one of `permissions`, `owner`, `group`, `ownership`"))
        },
        _ => Err(not_enum(item)),
    }
}

/// Metadata fields of an array prefix.
pub open spec fn decode_metadata_prefix(items: Seq<TomlItem>) -> Result<Seq<RawMetadataField>, DecodeErrorView>
    decreases items.len(),
{
    if items.len() == 0 {
        Ok(Seq::empty())
    } else {
        match decode_metadata_prefix(items.drop_last()) {
            Ok(acc) => match decode_metadata_spec(items.last()) {
                Ok(s) => Ok(acc.push(s)),
                Err(e) => Err(e),
            },
            Err(e) => Err(e),
        }
    }
}

/// An array of written metadata fields.
pub open spec fn decode_metadata_list_spec(item: TomlItem) -> Result<Seq<RawMetadataField>, DecodeErrorView> {
    match item.value {
        TomlValue::Array(items) => decode_metadata_prefix(items@),
        _ => Err(invalid_type_spec(item, "a sequence"@)),
    }
}

proof fn lemma_metadata_error_extends(items: Seq<TomlItem>, n: int, e: DecodeErrorView)
    requires
        0 <= n <= items.len(),
        decode_metadata_prefix(items.take(n)) == Err::<Seq<RawMetadataField>, DecodeErrorView>(e),
    ensures
        decode_metadata_prefix(items.take(items.len() as int)) == Err::<
            Seq<RawMetadataField>,
            DecodeErrorView,
        >(e),
    decreases items.len() - n,
{
    if n < items.len() {
        assert(items.take(n + 1).drop_last() =~= items.take(n));
        lemma_metadata_error_extends(items, n + 1, e);
    }
}

/// Decodes an array of written metadata fields.
pub fn decode_metadata_list(item: &TomlItem) -> (res: Result<Vec<RawMetadataField>, DecodeError>)
    ensures
        match res {
            Ok(v) => decode_metadata_list_spec(*item) == Ok::<
                Seq<RawMetadataField>,
                DecodeErrorView,
            >(v@),
            Err(e) => decode_metadata_list_spec(*item) == Err::<
                Seq<RawMetadataField>,
                DecodeErrorView,
            >(e@),
        },
{
    match &item.value {
        TomlValue::Array(items) => {
            assert(decode_metadata_list_spec(*item) == decode_metadata_prefix(items@));
            let mut out: Vec<RawMetadataField> = Vec::new();
            let mut i: usize = 0;
            while i < items.len()
                invariant
                    i <= items.len(),
                    decode_metadata_list_spec(*item) == decode_metadata_prefix(items@),
                    decode_metadata_prefix(items@.take(i as int)) == Ok::<
                        Seq<RawMetadataField>,
                        DecodeErrorView,
                    >(out@),
                decreases items.len() - i,
            {
                proof {
                    assert(items@.take(i + 1).drop_last() =~= items@.take(i as int));
                    assert(items@.take(i + 1).last() == items@[i as int]);
                }
                match decode_metadata(&items[i]) {
                    Ok(s) => {
                        out.push(s);
                    },
                    Err(e) => {
                        proof {
                            assert(decode_metadata_prefix(items@.take(i + 1)) == Err::<
                                Seq<RawMetadataField>,
                                DecodeErrorView,
                            >(e@));
                            lemma_metadata_error_extends(items@, i as int + 1, e@);
                            assert(items@.take(items.len() as int) =~= items@);
                        }
                        return Err(e);
                    },
                }
                i = i + 1;
            }
            assert(items@.take(items.len() as int) =~= items@);
            Ok(out)
        },
        _ => Err(invalid_type(item, "a sequence")),
    }
}


// ---------------------------------------------------------------------------
// File operation objects

/// A file operation table as written.
#[derive(Debug)]
pub struct RawFileObject {
    pub operation: Option<FileOperationKind>,
    pub source: Option<String>,
    pub target: Option<String>,
    pub required: bool,
    pub glob: Option<bool>,
    pub compare: Option<SyncCompare>,
    pub delete: Option<bool>,
    pub symlinks: Option<SymlinkMode>,
    pub ignore: Vec<String>,
    pub ignore_metadata: Vec<RawMetadataField>,
}

/// Model of a file operation table.
pub struct RawFileObjectView {
    pub operation: Option<FileOperationKind>,
    pub source: Option<Seq<char>>,
    pub target: Option<Seq<char>>,
    pub required: bool,
    pub glob: Option<bool>,
    pub compare: Option<SyncCompare>,
    pub delete: Option<bool>,
    pub symlinks: Option<SymlinkMode>,
    pub ignore: Seq<Seq<char>>,
    pub ignore_metadata: Seq<RawMetadataField>,
}

impl View for RawFileObject {
    type V = RawFileObjectView;

    open spec fn view(&self) -> RawFileObjectView {
        RawFileObjectView {
            operation: self.operation,
            source: crate::config::opt_view(self.source),
            target: crate::config::opt_view(self.target),
            required: self.required,
            glob: self.glob,
            compare: self.compare,
            delete: self.delete,
            symlinks: self.symlinks,
            ignore: string_views(self.ignore@),
            ignore_metadata: self.ignore_metadata@,
        }
    }
}

/// The fields a file operation table takes.
pub open spec fn file_fields_expected() -> Seq<char> {
    "one of `operation`, `source`, `target`, `required`, `glob`, `compare`, `delete`, `symlinks`, `ignore`, `ignore_metadata`"@
}

/// A file operation table with no keys.
pub open spec fn empty_file_object() -> RawFileObjectView {
    RawFileObjectView {
        operation: None,
        source: None,
        target: None,
        required: false,
        glob: None,
        compare: None,
        delete: None,
        symlinks: None,
        ignore: Seq::empty(),
        ignore_metadata: Seq::empty(),
    }
}

/// Applies one key of a file operation table.
pub open spec fn file_field_step(acc: RawFileObjectView, e: TomlEntry) -> Result<RawFileObjectView, DecodeErrorView> {
    let k = e.key@;
    if k == "operation"@ {
        match decode_kind_spec(e.item) {
            Ok(v) => Ok(RawFileObjectView { operation: Some(v), ..acc }),
            Err(x) => Err(x),
        }
    } else if k == "source"@ {
        match decode_string_spec(e.item) {
            Ok(v) => Ok(RawFileObjectView { source: Some(v), ..acc }),
            Err(x) => Err(x),
        }
    } else if k == "target"@ {
        match decode_string_spec(e.item) {
            Ok(v) => Ok(RawFileObjectView { target: Some(v), ..acc }),
            Err(x) => Err(x),
        }
    } else if k == "required"@ {
        match decode_bool_spec(e.item) {
            Ok(v) => Ok(RawFileObjectView { required: v, ..acc }),
            Err(x) => Err(x),
        }
    } else if k == "glob"@ {
        match decode_bool_spec(e.item) {
            Ok(v) => Ok(RawFileObjectView { glob: Some(v), ..acc }),
            Err(x) => Err(x),
        }
    } else if k == "compare"@ {
        match decode_compare_spec(e.item) {
            Ok(v) => Ok(RawFileObjectView { compare: Some(v), ..acc }),
            Err(x) => Err(x),
        }
    } else if k == "delete"@ {
        match decode_bool_spec(e.item) {
            Ok(v) => Ok(RawFileObjectView { delete: Some(v), ..acc }),
            Err(x) => Err(x),
        }
    } else if k == "symlinks"@ {
        match decode_symlinks_spec(e.item) {
            Ok(v) => Ok(RawFileObjectView { symlinks: Some(v), ..acc }),
            Err(x) => Err(x),
        }
    } else if k == "ignore"@ {
        match decode_string_list_spec(e.item) {
            Ok(v) => Ok(RawFileObjectView { ignore: v, ..acc }),
            Err(x) => Err(x),
        }
    } else if k == "ignore_metadata"@ {
        match decode_metadata_list_spec(e.item) {
            Ok(v) => Ok(RawFileObjectView { ignore_metadata: v, ..acc }),
            Err(x) => Err(x),
        }
    } else {
        Err(unknown_field_spec(e, file_fields_expected()))
    }
}

/// The keys of a table prefix applied in order; the first failure is reported.
pub open spec fn file_fields_prefix(es: Seq<TomlEntry>) -> Result<RawFileObjectView, DecodeErrorView>
    decreases es.len(),
{
    if es.len() == 0 {
        Ok(empty_file_object())
    } else {
        match file_fields_prefix(es.drop_last()) {
            Ok(acc) => file_field_step(acc, es.last()),
            Err(x) => Err(x),
        }
    }
}

/// A file operation table.
pub open spec fn decode_file_object_spec(item: TomlItem) -> Result<RawFileObjectView, DecodeErrorView> {
    match item.value {
        TomlValue::Table(es) => file_fields_prefix(es@),
        _ => Err(invalid_type_spec(item, "struct RawFileObject"@)),
    }
}

proof fn lemma_file_fields_error_extends(es: Seq<TomlEntry>, n: int, e: DecodeErrorView)
    requires
        0 <= n <= es.len(),
        file_fields_prefix(es.take(n)) == Err::<RawFileObjectView, DecodeErrorView>(e),
    ensures
        file_fields_prefix(es) == Err::<RawFileObjectView, DecodeErrorView>(e),
    decreases es.len() - n,
{
    if n < es.len() {
        assert(es.take(n + 1).drop_last() =~= es.take(n));
        lemma_file_fields_error_extends(es, n + 1, e);
    } else {
        assert(es.take(n) =~= es);
    }
}

fn file_field_step_exec(acc: RawFileObject, e: &TomlEntry) -> (res: Result<RawFileObject, DecodeError>)
    ensures
        match res {
            Ok(v) => file_field_step(acc@, *e) == Ok::<RawFileObjectView, DecodeErrorView>(v@),
            Err(x) => file_field_step(acc@, *e) == Err::<RawFileObjectView, DecodeErrorView>(x@),
        },
{
    let k = e.key.as_str();
    if str_eq(k, "operation") {
        let v = decode_kind(&e.item)?;
        Ok(RawFileObject { operation: Some(v), ..acc })
    } else if str_eq(k, "source") {
        let v = decode_string(&e.item)?;
        Ok(RawFileObject { source: Some(v), ..acc })
    } else if str_eq(k, "target") {
        let v = decode_string(&e.item)?;
        Ok(RawFileObject { target: Some(v), ..acc })
    } else if str_eq(k, "required") {
        let v = decode_bool(&e.item)?;
        Ok(RawFileObject { required: v, ..acc })
    } else if str_eq(k, "glob") {
        let v = decode_bool(&e.item)?;
        Ok(RawFileObject { glob: Some(v), ..acc })
    } else if str_eq(k, "compare") {
        let v = decode_compare(&e.item)?;
        Ok(RawFileObject { compare: Some(v), ..acc })
    } else if str_eq(k, "delete") {
        let v = decode_bool(&e.item)?;
        Ok(RawFileObject { delete: Some(v), ..acc })
    } else if str_eq(k, "symlinks") {
        let v = decode_symlinks(&e.item)?;
        Ok(RawFileObject { symlinks: Some(v), ..acc })
    } else if str_eq(k, "ignore") {
        let v = decode_string_list(&e.item)?;
        Ok(RawFileObject { ignore: v, ..acc })
    } else if str_eq(k, "ignore_metadata") {
        let v = decode_metadata_list(&e.item)?;
        Ok(RawFileObject { ignore_metadata: v, ..acc })
    } else {
        Err(
            unknown_field(
                e,
                "one of `operation`, `source`, `target`, `required`, `glob`, `compare`, `delete`, `symlinks`, `ignore`, `ignore_metadata`",
            ),
        )
    }
}

/// Decodes a file operation table.
pub fn decode_file_object(item: &TomlItem) -> (res: Result<RawFileObject, DecodeError>)
    ensures
        match res {
            Ok(v) => decode_file_object_spec(*item) == Ok::<RawFileObjectView, DecodeErrorView>(v@),
            Err(x) => decode_file_object_spec(*item) == Err::<RawFileObjectView, DecodeErrorView>(x@),
        },
{
    match &item.value {
        TomlValue::Table(es) => {
            let mut acc = RawFileObject {
                operation: None,
                source: None,
                target: None,
                required: false,
                glob: None,
                compare: None,
                delete: None,
                symlinks: None,
                ignore: Vec::new(),
                ignore_metadata: Vec::new(),
            };
            proof {
                assert(es@.take(0) =~= Seq::<TomlEntry>::empty());
                assert(string_views(acc.ignore@) =~= Seq::<Seq<char>>::empty());
                assert(acc.ignore_metadata@ =~= Seq::<RawMetadataField>::empty());
                assert(acc@ == empty_file_object());
            }
            let mut i: usize = 0;
            while i < es.len()
                invariant
                    i <= es.len(),
                    decode_file_object_spec(*item) == file_fields_prefix(es@),
                    file_fields_prefix(es@.take(i as int)) == Ok::<RawFileObjectView, DecodeErrorView>(acc@),
                decreases es.len() - i,
            {
                proof {
                    assert(es@.take(i + 1).drop_last() =~= es@.take(i as int));
                    assert(es@.take(i + 1).last() == es@[i as int]);
                }
                match file_field_step_exec(acc, &es[i]) {
                    Ok(next) => {
                        acc = next;
                    },
                    Err(x) => {
                        proof {
                            lemma_file_fields_error_extends(es@, i + 1, x@);
                        }
                        return Err(x);
                    },
                }
                i = i + 1;
            }
            assert(es@.take(es.len() as int) =~= es@);
            Ok(acc)
        },
        _ => Err(invalid_type(item, "struct RawFileObject")),
    }
}

/// A file operation entry of `copy`, `symlink` or `sync`: a source path or a
/// file operation table.
#[derive(Debug)]
pub enum RawFileEntry {
    Path(String),
    Object(RawFileObject),
}

/// Model of a file operation entry.
pub enum RawFileEntryView {
    Path(Seq<char>),
    Object(RawFileObjectView),
}

impl View for RawFileEntry {
    type V = RawFileEntryView;

    open spec fn view(&self) -> RawFileEntryView {
        match self {
            RawFileEntry::Path(s) => RawFileEntryView::Path(s@),
            RawFileEntry::Object(o) => RawFileEntryView::Object(o@),
        }
    }
}

/// A file operation entry.
pub open spec fn decode_file_entry_spec(item: TomlItem) -> Result<RawFileEntryView, DecodeErrorView> {
    match item.value {
        TomlValue::String(s) => Ok(RawFileEntryView::Path(s@)),
        TomlValue::Table(_) => match decode_file_object_spec(item) {
            Ok(o) => Ok(RawFileEntryView::Object(o)),
            Err(x) => Err(x),
        },
        _ => Err(invalid_type_spec(item, "a path string or file operation object"@)),
    }
}

/// Decodes a file operation entry.
pub fn decode_file_entry(item: &TomlItem) -> (res: Result<RawFileEntry, DecodeError>)
    ensures
        match res {
            Ok(v) => decode_file_entry_spec(*item) == Ok::<RawFileEntryView, DecodeErrorView>(v@),
            Err(x) => decode_file_entry_spec(*item) == Err::<RawFileEntryView, DecodeErrorView>(x@),
        },
{
    match &item.value {
        TomlValue::String(s) => Ok(RawFileEntry::Path(s.clone())),
        TomlValue::Table(_) => {
            let o = decode_file_object(item)?;
            Ok(RawFileEntry::Object(o))
        },
        _ => Err(invalid_type(item, "a path string or file operation object")),
    }
}

// ---------------------------------------------------------------------------
// Command objects

/// A command table as written.
#[derive(Debug)]
pub struct RawCommandObject {
    pub name: Option<String>,
    pub run: Option<String>,
    pub program: Option<String>,
    pub args: Option<Vec<String>>,
    pub cwd: Option<String>,
    pub env: Vec<(String, String)>,
    pub allow_failure: bool,
}

/// Model of a command table.
pub struct RawCommandObjectView {
    pub name: Option<Seq<char>>,
    pub run: Option<Seq<char>>,
    pub program: Option<Seq<char>>,
    pub args: Option<Seq<Seq<char>>>,
    pub cwd: Option<Seq<char>>,
    pub env: Seq<(Seq<char>, Seq<char>)>,
    pub allow_failure: bool,
}

/// The view of optional strings.
pub open spec fn opt_strings_view(o: Option<Vec<String>>) -> Option<Seq<Seq<char>>> {
    match o {
        Some(v) => Some(string_views(v@)),
        None => None,
    }
}

impl View for RawCommandObject {
    type V = RawCommandObjectView;

    open spec fn view(&self) -> RawCommandObjectView {
        RawCommandObjectView {
            name: crate::config::opt_view(self.name),
            run: crate::config::opt_view(self.run),
            program: crate::config::opt_view(self.program),
            args: opt_strings_view(self.args),
            cwd: crate::config::opt_view(self.cwd),
            env: crate::config::pair_views(self.env@),
            allow_failure: self.allow_failure,
        }
    }
}

/// Environment variables of a table prefix.
pub open spec fn env_prefix(es: Seq<TomlEntry>) -> Result<Seq<(Seq<char>, Seq<char>)>, DecodeErrorView>
    decreases es.len(),
{
    if es.len() == 0 {
        Ok(Seq::empty())
    } else {
        match env_prefix(es.drop_last()) {
            Ok(acc) => match decode_string_spec(es.last().item) {
                Ok(v) => Ok(acc.push((es.last().key@, v))),
                Err(x) => Err(x),
            },
            Err(x) => Err(x),
        }
    }
}

/// A table of environment variables.
pub open spec fn decode_env_spec(item: TomlItem) -> Result<Seq<(Seq<char>, Seq<char>)>, DecodeErrorView> {
    match item.value {
        TomlValue::Table(es) => env_prefix(es@),
        _ => Err(invalid_type_spec(item, "a map"@)),
    }
}

proof fn lemma_env_error_extends(es: Seq<TomlEntry>, n: int, e: DecodeErrorView)
    requires
        0 <= n <= es.len(),
        env_prefix(es.take(n)) == Err::<Seq<(Seq<char>, Seq<char>)>, DecodeErrorView>(e),
    ensures
        env_prefix(es) == Err::<Seq<(Seq<char>, Seq<char>)>, DecodeErrorView>(e),
    decreases es.len() - n,
{
    if n < es.len() {
        assert(es.take(n + 1).drop_last() =~= es.take(n));
        lemma_env_error_extends(es, n + 1, e);
    } else {
        assert(es.take(n) =~= es);
    }
}

/// Decodes a table of environment variables.
pub fn decode_env(item: &TomlItem) -> (res: Result<Vec<(String, String)>, DecodeError>)
    ensures
        match res {
            Ok(v) => decode_env_spec(*item) == Ok::<Seq<(Seq<char>, Seq<char>)>, DecodeErrorView>(
                crate::config::pair_views(v@),
            ),
            Err(x) => decode_env_spec(*item) == Err::<Seq<(Seq<char>, Seq<char>)>, DecodeErrorView>(x@),
        },
{
    match &item.value {
        TomlValue::Table(es) => {
            let mut out: Vec<(String, String)> = Vec::new();
            proof {
                assert(es@.take(0) =~= Seq::<TomlEntry>::empty());
                assert(crate::config::pair_views(out@) =~= Seq::<(Seq<char>, Seq<char>)>::empty());
            }
            let mut i: usize = 0;
            while i < es.len()
                invariant
                    i <= es.len(),
                    decode_env_spec(*item) == env_prefix(es@),
                    env_prefix(es@.take(i as int)) == Ok::<Seq<(Seq<char>, Seq<char>)>, DecodeErrorView>(
                        crate::config::pair_views(out@),
                    ),
                decreases es.len() - i,
            {
                proof {
                    assert(es@.take(i + 1).drop_last() =~= es@.take(i as int));
                    assert(es@.take(i + 1).last() == es@[i as int]);
                }
                match decode_string(&es[i].item) {
                    Ok(v) => {
                        let ghost before = crate::config::pair_views(out@);
                        out.push((es[i].key.clone(), v));
                        assert(crate::config::pair_views(out@) =~= before.push((es@[i as int].key@, v@)));
                    },
                    Err(x) => {
                        proof {
                            lemma_env_error_extends(es@, i + 1, x@);
                        }
                        return Err(x);
                    },
                }
                i = i + 1;
            }
            assert(es@.take(es.len() as int) =~= es@);
            Ok(out)
        },
        _ => Err(invalid_type(item, "a map")),
    }
}

/// The fields a command table takes.
pub open spec fn command_fields_expected() -> Seq<char> {
    "one of `name`, `run`, `program`, `args`, `cwd`, `env`, `allow_failure`"@
}

/// A command table with no keys.
pub open spec fn empty_command_object() -> RawCommandObjectView {
    RawCommandObjectView {
        name: None,
        run: None,
        program: None,
        args: None,
        cwd: None,
        env: Seq::empty(),
        allow_failure: false,
    }
}

/// Applies one key of a command table.
pub open spec fn command_field_step(acc: RawCommandObjectView, e: TomlEntry) -> Result<RawCommandObjectView, DecodeErrorView> {
    let k = e.key@;
    if k == "name"@ {
        match decode_string_spec(e.item) {
            Ok(v) => Ok(RawCommandObjectView { name: Some(v), ..acc }),
            Err(x) => Err(x),
        }
    } else if k == "run"@ {
        match decode_string_spec(e.item) {
            Ok(v) => Ok(RawCommandObjectView { run: Some(v), ..acc }),
            Err(x) => Err(x),
        }
    } else if k == "program"@ {
        match decode_string_spec(e.item) {
            Ok(v) => Ok(RawCommandObjectView { program: Some(v), ..acc }),
            Err(x) => Err(x),
        }
    } else if k == "args"@ {
        match decode_string_list_spec(e.item) {
            Ok(v) => Ok(RawCommandObjectView { args: Some(v), ..acc }),
            Err(x) => Err(x),
        }
    } else if k == "cwd"@ {
        match decode_string_spec(e.item) {
            Ok(v) => Ok(RawCommandObjectView { cwd: Some(v), ..acc }),
            Err(x) => Err(x),
        }
    } else if k == "env"@ {
        match decode_env_spec(e.item) {
            Ok(v) => Ok(RawCommandObjectView { env: v, ..acc }),
            Err(x) => Err(x),
        }
    } else if k == "allow_failure"@ {
        match decode_bool_spec(e.item) {
            Ok(v) => Ok(RawCommandObjectView { allow_failure: v, ..acc }),
            Err(x) => Err(x),
        }
    } else {
        Err(unknown_field_spec(e, command_fields_expected()))
    }
}

/// The keys of a command table prefix applied in order.
pub open spec fn command_fields_prefix(es: Seq<TomlEntry>) -> Result<RawCommandObjectView, DecodeErrorView>
    decreases es.len(),
{
    if es.len() == 0 {
        Ok(empty_command_object())
    } else {
        match command_fields_prefix(es.drop_last()) {
            Ok(acc) => command_field_step(acc, es.last()),
            Err(x) => Err(x),
        }
    }
}

/// A command table.
pub open spec fn decode_command_object_spec(item: TomlItem) -> Result<RawCommandObjectView, DecodeErrorView> {
    match item.value {
        TomlValue::Table(es) => command_fields_prefix(es@),
        _ => Err(invalid_type_spec(item, "struct RawCommandObject"@)),
    }
}

proof fn lemma_command_fields_error_extends(es: Seq<TomlEntry>, n: int, e: DecodeErrorView)
    requires
        0 <= n <= es.len(),
        command_fields_prefix(es.take(n)) == Err::<RawCommandObjectView, DecodeErrorView>(e),
    ensures
        command_fields_prefix(es) == Err::<RawCommandObjectView, DecodeErrorView>(e),
    decreases es.len() - n,
{
    if n < es.len() {
        assert(es.take(n + 1).drop_last() =~= es.take(n));
        lemma_command_fields_error_extends(es, n + 1, e);
    } else {
        assert(es.take(n) =~= es);
    }
}

fn command_field_step_exec(acc: RawCommandObject, e: &TomlEntry) -> (res: Result<RawCommandObject, DecodeError>)
    ensures
        match res {
            Ok(v) => command_field_step(acc@, *e) == Ok::<RawCommandObjectView, DecodeErrorView>(v@),
            Err(x) => command_field_step(acc@, *e) == Err::<RawCommandObjectView, DecodeErrorView>(x@),
        },
{
    let k = e.key.as_str();
    if str_eq(k, "name") {
        let v = decode_string(&e.item)?;
        Ok(RawCommandObject { name: Some(v), ..acc })
    } else if str_eq(k, "run") {
        let v = decode_string(&e.item)?;
        Ok(RawCommandObject { run: Some(v), ..acc })
    } else if str_eq(k, "program") {
        let v = decode_string(&e.item)?;
        Ok(RawCommandObject { program: Some(v), ..acc })
    } else if str_eq(k, "args") {
        let v = decode_string_list(&e.item)?;
        Ok(RawCommandObject { args: Some(v), ..acc })
    } else if str_eq(k, "cwd") {
        let v = decode_string(&e.item)?;
        Ok(RawCommandObject { cwd: Some(v), ..acc })
    } else if str_eq(k, "env") {
        let v = decode_env(&e.item)?;
        Ok(RawCommandObject { env: v, ..acc })
    } else if str_eq(k, "allow_failure") {
        let v = decode_bool(&e.item)?;
        Ok(RawCommandObject { allow_failure: v, ..acc })
    } else {
        Err(unknown_field(e, "one of `name`, `run`, `program`, `args`, `cwd`, `env`, `allow_failure`"))
    }
}

/// Decodes a command table.
pub fn decode_command_object(item: &TomlItem) -> (res: Result<RawCommandObject, DecodeError>)
    ensures
        match res {
            Ok(v) => decode_command_object_spec(*item) == Ok::<RawCommandObjectView, DecodeErrorView>(v@),
            Err(x) => decode_command_object_spec(*item) == Err::<RawCommandObjectView, DecodeErrorView>(x@),
        },
{
    match &item.value {
        TomlValue::Table(es) => {
            let mut acc = RawCommandObject {
                name: None,
                run: None,
                program: None,
                args: None,
                cwd: None,
                env: Vec::new(),
                allow_failure: false,
            };
            proof {
                assert(es@.take(0) =~= Seq::<TomlEntry>::empty());
                assert(crate::config::pair_views(acc.env@) =~= Seq::<(Seq<char>, Seq<char>)>::empty());
                assert(acc@ == empty_command_object());
            }
            let mut i: usize = 0;
            while i < es.len()
                invariant
                    i <= es.len(),
                    decode_command_object_spec(*item) == command_fields_prefix(es@),
                    command_fields_prefix(es@.take(i as int)) == Ok::<RawCommandObjectView, DecodeErrorView>(acc@),
                decreases es.len() - i,
            {
                proof {
                    assert(es@.take(i + 1).drop_last() =~= es@.take(i as int));
                    assert(es@.take(i + 1).last() == es@[i as int]);
                }
                match command_field_step_exec(acc, &es[i]) {
                    Ok(next) => {
                        acc = next;
                    },
                    Err(x) => {
                        proof {
                            lemma_command_fields_error_extends(es@, i + 1, x@);
                        }
                        return Err(x);
                    },
                }
                i = i + 1;
            }
            assert(es@.take(es.len() as int) =~= es@);
            Ok(acc)
        },
        _ => Err(invalid_type(item, "struct RawCommandObject")),
    }
}

/// A command entry: a shell command string or a command table.
#[derive(Debug)]
pub enum RawCommandEntry {
    Run(String),
    Object(RawCommandObject),
}

/// Model of a command entry.
pub enum RawCommandEntryView {
    Run(Seq<char>),
    Object(RawCommandObjectView),
}

impl View for RawCommandEntry {
    type V = RawCommandEntryView;

    open spec fn view(&self) -> RawCommandEntryView {
        match self {
            RawCommandEntry::Run(s) => RawCommandEntryView::Run(s@),
            RawCommandEntry::Object(o) => RawCommandEntryView::Object(o@),
        }
    }
}

/// A command entry.
pub open spec fn decode_command_entry_spec(item: TomlItem) -> Result<RawCommandEntryView, DecodeErrorView> {
    match item.value {
        TomlValue::String(s) => Ok(RawCommandEntryView::Run(s@)),
        TomlValue::Table(_) => match decode_command_object_spec(item) {
            Ok(o) => Ok(RawCommandEntryView::Object(o)),
            Err(x) => Err(x),
        },
        _ => Err(invalid_type_spec(item, "a shell command string or command object"@)),
    }
}

/// Decodes a command entry.
pub fn decode_command_entry(item: &TomlItem) -> (res: Result<RawCommandEntry, DecodeError>)
    ensures
        match res {
            Ok(v) => decode_command_entry_spec(*item) == Ok::<RawCommandEntryView, DecodeErrorView>(v@),
            Err(x) => decode_command_entry_spec(*item) == Err::<RawCommandEntryView, DecodeErrorView>(x@),
        },
{
    match &item.value {
        TomlValue::String(s) => Ok(RawCommandEntry::Run(s.clone())),
        TomlValue::Table(_) => {
            let o = decode_command_object(item)?;
            Ok(RawCommandEntry::Object(o))
        },
        _ => Err(invalid_type(item, "a shell command string or command object")),
    }
}


/// Spanned elements of an array prefix decoded as file operation entries.
pub open spec fn decode_file_entries_prefix(items: Seq<TomlItem>) -> Result<Seq<(RawFileEntryView, Span)>, DecodeErrorView>
    decreases items.len(),
{
    if items.len() == 0 {
        Ok(Seq::empty())
    } else {
        match decode_file_entries_prefix(items.drop_last()) {
            Ok(acc) => match decode_file_entry_spec(items.last()) {
                Ok(v) => Ok(acc.push((v, items.last().span))),
                Err(x) => Err(x),
            },
            Err(x) => Err(x),
        }
    }
}

/// An array of file operation entries, each with its span.
pub open spec fn decode_file_entries_spec(item: TomlItem) -> Result<Seq<(RawFileEntryView, Span)>, DecodeErrorView> {
    match item.value {
        TomlValue::Array(items) => decode_file_entries_prefix(items@),
        _ => Err(invalid_type_spec(item, "a sequence"@)),
    }
}

/// The views of spanned file operation entries.
pub open spec fn decode_file_entries_views(v: Seq<(RawFileEntry, Span)>) -> Seq<(RawFileEntryView, Span)> {
    v.map_values(|p: (RawFileEntry, Span)| (p.0@, p.1))
}

proof fn lemma_decode_file_entries_error_extends(items: Seq<TomlItem>, n: int, e: DecodeErrorView)
    requires
        0 <= n <= items.len(),
        decode_file_entries_prefix(items.take(n)) == Err::<Seq<(RawFileEntryView, Span)>, DecodeErrorView>(e),
    ensures
        decode_file_entries_prefix(items) == Err::<Seq<(RawFileEntryView, Span)>, DecodeErrorView>(e),
    decreases items.len() - n,
{
    if n < items.len() {
        assert(items.take(n + 1).drop_last() =~= items.take(n));
        lemma_decode_file_entries_error_extends(items, n + 1, e);
    } else {
        assert(items.take(n) =~= items);
    }
}

/// Decodes an array of file operation entries, keeping each element's span.
pub fn decode_file_entries(item: &TomlItem) -> (res: Result<Vec<(RawFileEntry, Span)>, DecodeError>)
    ensures
        match res {
            Ok(v) => decode_file_entries_spec(*item) == Ok::<Seq<(RawFileEntryView, Span)>, DecodeErrorView>(decode_file_entries_views(v@)),
            Err(x) => decode_file_entries_spec(*item) == Err::<Seq<(RawFileEntryView, Span)>, DecodeErrorView>(x@),
        },
{
    match &item.value {
        TomlValue::Array(items) => {
            let mut out: Vec<(RawFileEntry, Span)> = Vec::new();
            proof {
                assert(items@.take(0) =~= Seq::<TomlItem>::empty());
                assert(decode_file_entries_views(out@) =~= Seq::<(RawFileEntryView, Span)>::empty());
            }
            let mut i: usize = 0;
            while i < items.len()
                invariant
                    i <= items.len(),
                    decode_file_entries_spec(*item) == decode_file_entries_prefix(items@),
                    decode_file_entries_prefix(items@.take(i as int)) == Ok::<Seq<(RawFileEntryView, Span)>, DecodeErrorView>(
                        decode_file_entries_views(out@),
                    ),
                decreases items.len() - i,
            {
                proof {
                    assert(items@.take(i + 1).drop_last() =~= items@.take(i as int));
                    assert(items@.take(i + 1).last() == items@[i as int]);
                }
                match decode_file_entry(&items[i]) {
                    Ok(v) => {
                        let ghost before = decode_file_entries_views(out@);
                        let ghost vv = v@;
                        out.push((v, items[i].span));
                        assert(decode_file_entries_views(out@) =~= before.push((vv, items@[i as int].span)));
                    },
                    Err(x) => {
                        proof {
                            lemma_decode_file_entries_error_extends(items@, i + 1, x@);
                        }
                        return Err(x);
                    },
                }
                i = i + 1;
            }
            assert(items@.take(items.len() as int) =~= items@);
            Ok(out)
        },
        _ => Err(invalid_type(item, "a sequence")),
    }
}

/// Spanned elements of an array prefix decoded as file operation tables.
pub open spec fn decode_file_objects_prefix(items: Seq<TomlItem>) -> Result<Seq<(RawFileObjectView, Span)>, DecodeErrorView>
    decreases items.len(),
{
    if items.len() == 0 {
        Ok(Seq::empty())
    } else {
        match decode_file_objects_prefix(items.drop_last()) {
            Ok(acc) => match decode_file_object_spec(items.last()) {
                Ok(v) => Ok(acc.push((v, items.last().span))),
                Err(x) => Err(x),
            },
            Err(x) => Err(x),
        }
    }
}

/// An array of file operation tables, each with its span.
pub open spec fn decode_file_objects_spec(item: TomlItem) -> Result<Seq<(RawFileObjectView, Span)>, DecodeErrorView> {
    match item.value {
        TomlValue::Array(items) => decode_file_objects_prefix(items@),
        _ => Err(invalid_type_spec(item, "a sequence"@)),
    }
}

/// The views of spanned file operation tables.
pub open spec fn decode_file_objects_views(v: Seq<(RawFileObject, Span)>) -> Seq<(RawFileObjectView, Span)> {
    v.map_values(|p: (RawFileObject, Span)| (p.0@, p.1))
}

proof fn lemma_decode_file_objects_error_extends(items: Seq<TomlItem>, n: int, e: DecodeErrorView)
    requires
        0 <= n <= items.len(),
        decode_file_objects_prefix(items.take(n)) == Err::<Seq<(RawFileObjectView, Span)>, DecodeErrorView>(e),
    ensures
        decode_file_objects_prefix(items) == Err::<Seq<(RawFileObjectView, Span)>, DecodeErrorView>(e),
    decreases items.len() - n,
{
    if n < items.len() {
        assert(items.take(n + 1).drop_last() =~= items.take(n));
        lemma_decode_file_objects_error_extends(items, n + 1, e);
    } else {
        assert(items.take(n) =~= items);
    }
}

/// Decodes an array of file operation tables, keeping each element's span.
pub fn decode_file_objects(item: &TomlItem) -> (res: Result<Vec<(RawFileObject, Span)>, DecodeError>)
    ensures
        match res {
            Ok(v) => decode_file_objects_spec(*item) == Ok::<Seq<(RawFileObjectView, Span)>, DecodeErrorView>(decode_file_objects_views(v@)),
            Err(x) => decode_file_objects_spec(*item) == Err::<Seq<(RawFileObjectView, Span)>, DecodeErrorView>(x@),
        },
{
    match &item.value {
        TomlValue::Array(items) => {
            let mut out: Vec<(RawFileObject, Span)> = Vec::new();
            proof {
                assert(items@.take(0) =~= Seq::<TomlItem>::empty());
                assert(decode_file_objects_views(out@) =~= Seq::<(RawFileObjectView, Span)>::empty());
            }
            let mut i: usize = 0;
            while i < items.len()
                invariant
                    i <= items.len(),
                    decode_file_objects_spec(*item) == decode_file_objects_prefix(items@),
                    decode_file_objects_prefix(items@.take(i as int)) == Ok::<Seq<(RawFileObjectView, Span)>, DecodeErrorView>(
                        decode_file_objects_views(out@),
                    ),
                decreases items.len() - i,
            {
                proof {
                    assert(items@.take(i + 1).drop_last() =~= items@.take(i as int));
                    assert(items@.take(i + 1).last() == items@[i as int]);
                }
                match decode_file_object(&items[i]) {
                    Ok(v) => {
                        let ghost before = decode_file_objects_views(out@);
                        let ghost vv = v@;
                        out.push((v, items[i].span));
                        assert(decode_file_objects_views(out@) =~= before.push((vv, items@[i as int].span)));
                    },
                    Err(x) => {
                        proof {
                            lemma_decode_file_objects_error_extends(items@, i + 1, x@);
                        }
                        return Err(x);
                    },
                }
                i = i + 1;
            }
            assert(items@.take(items.len() as int) =~= items@);
            Ok(out)
        },
        _ => Err(invalid_type(item, "a sequence")),
    }
}

/// Spanned elements of an array prefix decoded as command entries.
pub open spec fn decode_command_entries_prefix(items: Seq<TomlItem>) -> Result<Seq<(RawCommandEntryView, Span)>, DecodeErrorView>
    decreases items.len(),
{
    if items.len() == 0 {
        Ok(Seq::empty())
    } else {
        match decode_command_entries_prefix(items.drop_last()) {
            Ok(acc) => match decode_command_entry_spec(items.last()) {
                Ok(v) => Ok(acc.push((v, items.last().span))),
                Err(x) => Err(x),
            },
            Err(x) => Err(x),
        }
    }
}

/// An array of command entries, each with its span.
pub open spec fn decode_command_entries_spec(item: TomlItem) -> Result<Seq<(RawCommandEntryView, Span)>, DecodeErrorView> {
    match item.value {
        TomlValue::Array(items) => decode_command_entries_prefix(items@),
        _ => Err(invalid_type_spec(item, "a sequence"@)),
    }
}

/// The views of spanned command entries.
pub open spec fn decode_command_entries_views(v: Seq<(RawCommandEntry, Span)>) -> Seq<(RawCommandEntryView, Span)> {
    v.map_values(|p: (RawCommandEntry, Span)| (p.0@, p.1))
}

proof fn lemma_decode_command_entries_error_extends(items: Seq<TomlItem>, n: int, e: DecodeErrorView)
    requires
        0 <= n <= items.len(),
        decode_command_entries_prefix(items.take(n)) == Err::<Seq<(RawCommandEntryView, Span)>, DecodeErrorView>(e),
    ensures
        decode_command_entries_prefix(items) == Err::<Seq<(RawCommandEntryView, Span)>, DecodeErrorView>(e),
    decreases items.len() - n,
{
    if n < items.len() {
        assert(items.take(n + 1).drop_last() =~= items.take(n));
        lemma_decode_command_entries_error_extends(items, n + 1, e);
    } else {
        assert(items.take(n) =~= items);
    }
}

/// Decodes an array of command entries, keeping each element's span.
pub fn decode_command_entries(item: &TomlItem) -> (res: Result<Vec<(RawCommandEntry, Span)>, DecodeError>)
    ensures
        match res {
            Ok(v) => decode_command_entries_spec(*item) == Ok::<Seq<(RawCommandEntryView, Span)>, DecodeErrorView>(decode_command_entries_views(v@)),
            Err(x) => decode_command_entries_spec(*item) == Err::<Seq<(RawCommandEntryView, Span)>, DecodeErrorView>(x@),
        },
{
    match &item.value {
        TomlValue::Array(items) => {
            let mut out: Vec<(RawCommandEntry, Span)> = Vec::new();
            proof {
                assert(items@.take(0) =~= Seq::<TomlItem>::empty());
                assert(decode_command_entries_views(out@) =~= Seq::<(RawCommandEntryView, Span)>::empty());
            }
            let mut i: usize = 0;
            while i < items.len()
                invariant
                    i <= items.len(),
                    decode_command_entries_spec(*item) == decode_command_entries_prefix(items@),
                    decode_command_entries_prefix(items@.take(i as int)) == Ok::<Seq<(RawCommandEntryView, Span)>, DecodeErrorView>(
                        decode_command_entries_views(out@),
                    ),
                decreases items.len() - i,
            {
                proof {
                    assert(items@.take(i + 1).drop_last() =~= items@.take(i as int));
                    assert(items@.take(i + 1).last() == items@[i as int]);
                }
                match decode_command_entry(&items[i]) {
                    Ok(v) => {
                        let ghost before = decode_command_entries_views(out@);
                        let ghost vv = v@;
                        out.push((v, items[i].span));
                        assert(decode_command_entries_views(out@) =~= before.push((vv, items@[i as int].span)));
                    },
                    Err(x) => {
                        proof {
                            lemma_decode_command_entries_error_extends(items@, i + 1, x@);
                        }
                        return Err(x);
                    },
                }
                i = i + 1;
            }
            assert(items@.take(items.len() as int) =~= items@);
            Ok(out)
        },
        _ => Err(invalid_type(item, "a sequence")),
    }
}

/// Spanned elements of an array prefix decoded as command tables.
pub open spec fn decode_command_objects_prefix(items: Seq<TomlItem>) -> Result<Seq<(RawCommandObjectView, Span)>, DecodeErrorView>
    decreases items.len(),
{
    if items.len() == 0 {
        Ok(Seq::empty())
    } else {
        match decode_command_objects_prefix(items.drop_last()) {
            Ok(acc) => match decode_command_object_spec(items.last()) {
                Ok(v) => Ok(acc.push((v, items.last().span))),
                Err(x) => Err(x),
            },
            Err(x) => Err(x),
        }
    }
}

/// An array of command tables, each with its span.
pub open spec fn decode_command_objects_spec(item: TomlItem) -> Result<Seq<(RawCommandObjectView, Span)>, DecodeErrorView> {
    match item.value {
        TomlValue::Array(items) => decode_command_objects_prefix(items@),
        _ => Err(invalid_type_spec(item, "a sequence"@)),
    }
}

/// The views of spanned command tables.
pub open spec fn decode_command_objects_views(v: Seq<(RawCommandObject, Span)>) -> Seq<(RawCommandObjectView, Span)> {
    v.map_values(|p: (RawCommandObject, Span)| (p.0@, p.1))
}

proof fn lemma_decode_command_objects_error_extends(items: Seq<TomlItem>, n: int, e: DecodeErrorView)
    requires
        0 <= n <= items.len(),
        decode_command_objects_prefix(items.take(n)) == Err::<Seq<(RawCommandObjectView, Span)>, DecodeErrorView>(e),
    ensures
        decode_command_objects_prefix(items) == Err::<Seq<(RawCommandObjectView, Span)>, DecodeErrorView>(e),
    decreases items.len() - n,
{
    if n < items.len() {
        assert(items.take(n + 1).drop_last() =~= items.take(n));
        lemma_decode_command_objects_error_extends(items, n + 1, e);
    } else {
        assert(items.take(n) =~= items);
    }
}

/// Decodes an array of command tables, keeping each element's span.
pub fn decode_command_objects(item: &TomlItem) -> (res: Result<Vec<(RawCommandObject, Span)>, DecodeError>)
    ensures
        match res {
            Ok(v) => decode_command_objects_spec(*item) == Ok::<Seq<(RawCommandObjectView, Span)>, DecodeErrorView>(decode_command_objects_views(v@)),
            Err(x) => decode_command_objects_spec(*item) == Err::<Seq<(RawCommandObjectView, Span)>, DecodeErrorView>(x@),
        },
{
    match &item.value {
        TomlValue::Array(items) => {
            let mut out: Vec<(RawCommandObject, Span)> = Vec::new();
            proof {
                assert(items@.take(0) =~= Seq::<TomlItem>::empty());
                assert(decode_command_objects_views(out@) =~= Seq::<(RawCommandObjectView, Span)>::empty());
            }
            let mut i: usize = 0;
            while i < items.len()
                invariant
                    i <= items.len(),
                    decode_command_objects_spec(*item) == decode_command_objects_prefix(items@),
                    decode_command_objects_prefix(items@.take(i as int)) == Ok::<Seq<(RawCommandObjectView, Span)>, DecodeErrorView>(
                        decode_command_objects_views(out@),
                    ),
                decreases items.len() - i,
            {
                proof {
                    assert(items@.take(i + 1).drop_last() =~= items@.take(i as int));
                    assert(items@.take(i + 1).last() == items@[i as int]);
                }
                match decode_command_object(&items[i]) {
                    Ok(v) => {
                        let ghost before = decode_command_objects_views(out@);
                        let ghost vv = v@;
                        out.push((v, items[i].span));
                        assert(decode_command_objects_views(out@) =~= before.push((vv, items@[i as int].span)));
                    },
                    Err(x) => {
                        proof {
                            lemma_decode_command_objects_error_extends(items@, i + 1, x@);
                        }
                        return Err(x);
                    },
                }
                i = i + 1;
            }
            assert(items@.take(items.len() as int) =~= items@);
            Ok(out)
        },
        _ => Err(invalid_type(item, "a sequence")),
    }
}


// ---------------------------------------------------------------------------
// The document

/// The top-level keys of a config, as written.
#[derive(Debug)]
pub struct RawConfig {
    pub strict: bool,
    pub default_ignore: Vec<String>,
    pub dangerously_allow_sources_outside_root: bool,
    pub dangerously_allow_targets_outside_worktree: bool,
    pub copy: Vec<(RawFileEntry, Span)>,
    pub symlink: Vec<(RawFileEntry, Span)>,
    pub sync: Vec<(RawFileEntry, Span)>,
    pub files: Vec<(RawFileObject, Span)>,
    pub file: Vec<(RawFileObject, Span)>,
    pub commands: Vec<(RawCommandEntry, Span)>,
    pub command: Vec<(RawCommandObject, Span)>,
}

/// Model of the top-level keys of a config.
pub struct RawConfigView {
    pub strict: bool,
    pub default_ignore: Seq<Seq<char>>,
    pub dangerously_allow_sources_outside_root: bool,
    pub dangerously_allow_targets_outside_worktree: bool,
    pub copy: Seq<(RawFileEntryView, Span)>,
    pub symlink: Seq<(RawFileEntryView, Span)>,
    pub sync: Seq<(RawFileEntryView, Span)>,
    pub files: Seq<(RawFileObjectView, Span)>,
    pub file: Seq<(RawFileObjectView, Span)>,
    pub commands: Seq<(RawCommandEntryView, Span)>,
    pub command: Seq<(RawCommandObjectView, Span)>,
}

impl View for RawConfig {
    type V = RawConfigView;

    open spec fn view(&self) -> RawConfigView {
        RawConfigView {
            strict: self.strict,
            default_ignore: string_views(self.default_ignore@),
            dangerously_allow_sources_outside_root: self.dangerously_allow_sources_outside_root,
            dangerously_allow_targets_outside_worktree: self.dangerously_allow_targets_outside_worktree,
            copy: decode_file_entries_views(self.copy@),
            symlink: decode_file_entries_views(self.symlink@),
            sync: decode_file_entries_views(self.sync@),
            files: decode_file_objects_views(self.files@),
            file: decode_file_objects_views(self.file@),
            commands: decode_command_entries_views(self.commands@),
            command: decode_command_objects_views(self.command@),
        }
    }
}

/// The top-level keys a config takes.
pub open spec fn config_fields_expected() -> Seq<char> {
    "one of `strict`, `default_ignore`, `dangerously_allow_sources_outside_root`, `dangerously_allow_targets_outside_worktree`, `copy`, `symlink`, `sync`, `files`, `file`, `commands`, `command`"@
}

/// A config with no keys.
pub open spec fn empty_config() -> RawConfigView {
    RawConfigView {
        strict: false,
        default_ignore: Seq::empty(),
        dangerously_allow_sources_outside_root: false,
        dangerously_allow_targets_outside_worktree: false,
        copy: Seq::empty(),
        symlink: Seq::empty(),
        sync: Seq::empty(),
        files: Seq::empty(),
        file: Seq::empty(),
        commands: Seq::empty(),
        command: Seq::empty(),
    }
}

/// Applies one top-level key.
pub open spec fn config_field_step(acc: RawConfigView, e: TomlEntry) -> Result<RawConfigView, DecodeErrorView> {
    let k = e.key@;
    if k == "strict"@ {
        match decode_bool_spec(e.item) {
            Ok(v) => Ok(RawConfigView { strict: v, ..acc }),
            Err(x) => Err(x),
        }
    } else if k == "default_ignore"@ {
        match decode_string_list_spec(e.item) {
            Ok(v) => Ok(RawConfigView { default_ignore: v, ..acc }),
            Err(x) => Err(x),
        }
    } else if k == "dangerously_allow_sources_outside_root"@ {
        match decode_bool_spec(e.item) {
            Ok(v) => Ok(RawConfigView { dangerously_allow_sources_outside_root: v, ..acc }),
            Err(x) => Err(x),
        }
    } else if k == "dangerously_allow_targets_outside_worktree"@ {
        match decode_bool_spec(e.item) {
            Ok(v) => Ok(RawConfigView { dangerously_allow_targets_outside_worktree: v, ..acc }),
            Err(x) => Err(x),
        }
    } else if k == "copy"@ {
        match decode_file_entries_spec(e.item) {
            Ok(v) => Ok(RawConfigView { copy: v, ..acc }),
            Err(x) => Err(x),
        }
    } else if k == "symlink"@ {
        match decode_file_entries_spec(e.item) {
            Ok(v) => Ok(RawConfigView { symlink: v, ..acc }),
            Err(x) => Err(x),
        }
    } else if k == "sync"@ {
        match decode_file_entries_spec(e.item) {
            Ok(v) => Ok(RawConfigView { sync: v, ..acc }),
            Err(x) => Err(x),
        }
    } else if k == "files"@ {
        match decode_file_objects_spec(e.item) {
            Ok(v) => Ok(RawConfigView { files: v, ..acc }),
            Err(x) => Err(x),
        }
    } else if k == "file"@ {
        match decode_file_objects_spec(e.item) {
            Ok(v) => Ok(RawConfigView { file: v, ..acc }),
            Err(x) => Err(x),
        }
    } else if k == "commands"@ {
        match decode_command_entries_spec(e.item) {
            Ok(v) => Ok(RawConfigView { commands: v, ..acc }),
            Err(x) => Err(x),
        }
    } else if k == "command"@ {
        match decode_command_objects_spec(e.item) {
            Ok(v) => Ok(RawConfigView { command: v, ..acc }),
            Err(x) => Err(x),
        }
    } else {
        Err(unknown_field_spec(e, config_fields_expected()))
    }
}

/// The top-level keys of a prefix applied in order.
pub open spec fn config_fields_prefix(es: Seq<TomlEntry>) -> Result<RawConfigView, DecodeErrorView>
    decreases es.len(),
{
    if es.len() == 0 {
        Ok(empty_config())
    } else {
        match config_fields_prefix(es.drop_last()) {
            Ok(acc) => config_field_step(acc, es.last()),
            Err(x) => Err(x),
        }
    }
}

/// The raw declarations of a parsed document: its root table decoded key by
/// key in the table's order, the first schema violation reported.
pub open spec fn decode_config_spec(doc: TomlItem) -> Result<RawConfigView, DecodeErrorView> {
    match doc.value {
        TomlValue::Table(es) => config_fields_prefix(es@),
        _ => Err(invalid_type_spec(doc, "struct RawConfig"@)),
    }
}

proof fn lemma_config_fields_error_extends(es: Seq<TomlEntry>, n: int, e: DecodeErrorView)
    requires
        0 <= n <= es.len(),
        config_fields_prefix(es.take(n)) == Err::<RawConfigView, DecodeErrorView>(e),
    ensures
        config_fields_prefix(es) == Err::<RawConfigView, DecodeErrorView>(e),
    decreases es.len() - n,
{
    if n < es.len() {
        assert(es.take(n + 1).drop_last() =~= es.take(n));
        lemma_config_fields_error_extends(es, n + 1, e);
    } else {
        assert(es.take(n) =~= es);
    }
}

fn config_field_step_exec(acc: RawConfig, e: &TomlEntry) -> (res: Result<RawConfig, DecodeError>)
    ensures
        match res {
            Ok(v) => config_field_step(acc@, *e) == Ok::<RawConfigView, DecodeErrorView>(v@),
            Err(x) => config_field_step(acc@, *e) == Err::<RawConfigView, DecodeErrorView>(x@),
        },
{
    let k = e.key.as_str();
    if str_eq(k, "strict") {
        let v = decode_bool(&e.item)?;
        Ok(RawConfig { strict: v, ..acc })
    } else if str_eq(k, "default_ignore") {
        let v = decode_string_list(&e.item)?;
        Ok(RawConfig { default_ignore: v, ..acc })
    } else if str_eq(k, "dangerously_allow_sources_outside_root") {
        let v = decode_bool(&e.item)?;
        Ok(RawConfig { dangerously_allow_sources_outside_root: v, ..acc })
    } else if str_eq(k, "dangerously_allow_targets_outside_worktree") {
        let v = decode_bool(&e.item)?;
        Ok(RawConfig { dangerously_allow_targets_outside_worktree: v, ..acc })
    } else if str_eq(k, "copy") {
        let v = decode_file_entries(&e.item)?;
        Ok(RawConfig { copy: v, ..acc })
    } else if str_eq(k, "symlink") {
        let v = decode_file_entries(&e.item)?;
        Ok(RawConfig { symlink: v, ..acc })
    } else if str_eq(k, "sync") {
        let v = decode_file_entries(&e.item)?;
        Ok(RawConfig { sync: v, ..acc })
    } else if str_eq(k, "files") {
        let v = decode_file_objects(&e.item)?;
        Ok(RawConfig { files: v, ..acc })
    } else if str_eq(k, "file") {
        let v = decode_file_objects(&e.item)?;
        Ok(RawConfig { file: v, ..acc })
    } else if str_eq(k, "commands") {
        let v = decode_command_entries(&e.item)?;
        Ok(RawConfig { commands: v, ..acc })
    } else if str_eq(k, "command") {
        let v = decode_command_objects(&e.item)?;
        Ok(RawConfig { command: v, ..acc })
    } else {
        Err(
            unknown_field(
                e,
                "one of `strict`, `default_ignore`, `dangerously_allow_sources_outside_root`, `dangerously_allow_targets_outside_worktree`, `copy`, `symlink`, `sync`, `files`, `file`, `commands`, `command`",
            ),
        )
    }
}

/// Decodes the raw declarations of a parsed document.
pub fn decode_config(doc: &TomlItem) -> (res: Result<RawConfig, DecodeError>)
    ensures
        match res {
            Ok(v) => decode_config_spec(*doc) == Ok::<RawConfigView, DecodeErrorView>(v@),
            Err(x) => decode_config_spec(*doc) == Err::<RawConfigView, DecodeErrorView>(x@),
        },
{
    match &doc.value {
        TomlValue::Table(es) => {
            let mut acc = RawConfig {
                strict: false,
                default_ignore: Vec::new(),
                dangerously_allow_sources_outside_root: false,
                dangerously_allow_targets_outside_worktree: false,
                copy: Vec::new(),
                symlink: Vec::new(),
                sync: Vec::new(),
                files: Vec::new(),
                file: Vec::new(),
                commands: Vec::new(),
                command: Vec::new(),
            };
            proof {
                assert(es@.take(0) =~= Seq::<TomlEntry>::empty());
                assert(string_views(acc.default_ignore@) =~= Seq::<Seq<char>>::empty());
                assert(decode_file_entries_views(acc.copy@) =~= Seq::<(RawFileEntryView, Span)>::empty());
                assert(decode_file_entries_views(acc.symlink@) =~= Seq::<(RawFileEntryView, Span)>::empty());
                assert(decode_file_entries_views(acc.sync@) =~= Seq::<(RawFileEntryView, Span)>::empty());
                assert(decode_file_objects_views(acc.files@) =~= Seq::<(RawFileObjectView, Span)>::empty());
                assert(decode_file_objects_views(acc.file@) =~= Seq::<(RawFileObjectView, Span)>::empty());
                assert(decode_command_entries_views(acc.commands@) =~= Seq::<(RawCommandEntryView, Span)>::empty());
                assert(decode_command_objects_views(acc.command@) =~= Seq::<(RawCommandObjectView, Span)>::empty());
                assert(acc@ == empty_config());
            }
            let mut i: usize = 0;
            while i < es.len()
                invariant
                    i <= es.len(),
                    decode_config_spec(*doc) == config_fields_prefix(es@),
                    config_fields_prefix(es@.take(i as int)) == Ok::<RawConfigView, DecodeErrorView>(acc@),
                decreases es.len() - i,
            {
                proof {
                    assert(es@.take(i + 1).drop_last() =~= es@.take(i as int));
                    assert(es@.take(i + 1).last() == es@[i as int]);
                }
                match config_field_step_exec(acc, &es[i]) {
                    Ok(next) => {
                        acc = next;
                    },
                    Err(x) => {
                        proof {
                            lemma_config_fields_error_extends(es@, i + 1, x@);
                        }
                        return Err(x);
                    },
                }
                i = i + 1;
            }
            assert(es@.take(es.len() as int) =~= es@);
            Ok(acc)
        },
        _ => Err(invalid_type(doc, "struct RawConfig")),
    }
}

} // verus!
