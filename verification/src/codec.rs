//! The record codec: the schema of a license metadata document, the
//! decoding of a document into a [`ScancodeLicense`], and the encoding of a
//! record back into a document.
//!
//! The schema is closed: a document with a field name outside the schema is
//! rejected, never silently pruned. The two flag fields use the database's
//! non-standard boolean encoding: the string `yes` reads as true and every
//! other string as false, while writing is strict (`yes`/`no`).

use vstd::prelude::*;

use crate::models::{
    Category, MalformedDocument, RecordModel, ScancodeLicense, category_label, category_of_label,
    lemma_category_labels_symmetric, str_eq,
};
use crate::yaml::{Val, YamlVal, doc_model, parse_yaml_document, yaml_doc_of};
use crate::yes_label;

verus! {

broadcast use vstd::string::group_string_axioms;

/// How the value of one schema field is typed.
pub enum FieldKind {
    /// A required string.
    ReqStr,
    /// An optional string; an empty value reads as absent.
    OptStr,
    /// A flag in the yes/no string encoding, false when omitted.
    YesNo,
    /// A list of strings, empty when omitted.
    StrList,
    /// An optional integer.
    OptInt,
    /// The category enumeration, named by its exact external label.
    Cat,
}

/// The position of a field name in the schema, in schema order, or -1 for a
/// name outside the schema.
pub open spec fn slot_of(k: Seq<char>) -> int {
    if k == "key"@ {
        0
    } else if k == "short_name"@ {
        1
    } else if k == "name"@ {
        2
    } else if k == "category"@ {
        3
    } else if k == "owner"@ {
        4
    } else if k == "homepage_url"@ {
        5
    } else if k == "notes"@ {
        6
    } else if k == "is_deprecated"@ {
        7
    } else if k == "spdx_license_key"@ {
        8
    } else if k == "text_urls"@ {
        9
    } else if k == "osi_url"@ {
        10
    } else if k == "osi_license_key"@ {
        11
    } else if k == "faq_url"@ {
        12
    } else if k == "other_urls"@ {
        13
    } else if k == "is_exception"@ {
        14
    } else if k == "other_spdx_license_keys"@ {
        15
    } else if k == "ignorable_copyrights"@ {
        16
    } else if k == "ignorable_holders"@ {
        17
    } else if k == "ignorable_authors"@ {
        18
    } else if k == "ignorable_urls"@ {
        19
    } else if k == "ignorable_emails"@ {
        20
    } else if k == "minimum_coverage"@ {
        21
    } else if k == "standard_notice"@ {
        22
    } else if k == "language"@ {
        23
    } else {
        -1
    }
}

/// The type of the field at a schema slot.
pub open spec fn kind_of_slot(s: int) -> FieldKind {
    if s == 0 || s == 1 || s == 2 || s == 4 {
        FieldKind::ReqStr
    } else if s == 3 {
        FieldKind::Cat
    } else if s == 7 || s == 14 {
        FieldKind::YesNo
    } else if s == 9 || s == 13 || s == 15 || s == 16 || s == 17 || s == 18 || s == 19 || s == 20 {
        FieldKind::StrList
    } else if s == 21 {
        FieldKind::OptInt
    } else {
        FieldKind::OptStr
    }
}

/// Whether one value can be coerced to a field type, and the error when it
/// cannot.
pub open spec fn val_err(kind: FieldKind, v: YamlVal) -> Option<MalformedDocument> {
    match kind {
        FieldKind::ReqStr => match v {
            YamlVal::Str(_) => None,
            _ => Some(MalformedDocument::TypeMismatch),
        },
        FieldKind::OptStr => match v {
            YamlVal::Str(_) => None,
            YamlVal::Null => None,
            _ => Some(MalformedDocument::TypeMismatch),
        },
        FieldKind::YesNo => match v {
            YamlVal::Str(_) => None,
            _ => Some(MalformedDocument::TypeMismatch),
        },
        FieldKind::StrList => match v {
            YamlVal::List(_) => None,
            _ => Some(MalformedDocument::TypeMismatch),
        },
        FieldKind::OptInt => match v {
            YamlVal::Int(i) => if -2147483648 <= i <= 2147483647 {
                None
            } else {
                Some(MalformedDocument::TypeMismatch)
            },
            YamlVal::Null => None,
            _ => Some(MalformedDocument::TypeMismatch),
        },
        FieldKind::Cat => match v {
            YamlVal::Str(s) => if category_of_label(s) is Some {
                None
            } else {
                Some(MalformedDocument::InvalidEnumLabel)
            },
            _ => Some(MalformedDocument::TypeMismatch),
        },
    }
}

/// Whether one document pair is admissible: its key must be in the schema
/// and its value coercible to the field's type.
pub open spec fn pair_err(k: Seq<char>, v: YamlVal) -> Option<MalformedDocument> {
    if slot_of(k) == -1 {
        Some(MalformedDocument::UnknownField)
    } else {
        val_err(kind_of_slot(slot_of(k)), v)
    }
}

/// The first inadmissible pair's error, scanning the document in order.
pub open spec fn first_err(d: Seq<(Seq<char>, YamlVal)>) -> Option<MalformedDocument>
    decreases d.len(),
{
    if d.len() == 0 {
        None
    } else {
        match pair_err(d[0].0, d[0].1) {
            Some(e) => Some(e),
            None => first_err(d.drop_first()),
        }
    }
}

/// The value bound to a key: the last pair with that key, if any.
pub open spec fn lookup(d: Seq<(Seq<char>, YamlVal)>, k: Seq<char>) -> Option<YamlVal>
    decreases d.len(),
{
    if d.len() == 0 {
        None
    } else if d.last().0 == k {
        Some(d.last().1)
    } else {
        lookup(d.drop_last(), k)
    }
}

/// The error for an absent required field, if any is absent.
pub open spec fn missing_err(d: Seq<(Seq<char>, YamlVal)>) -> Option<MalformedDocument> {
    if lookup(d, "key"@) is None || lookup(d, "short_name"@) is None || lookup(d, "name"@) is None
        || lookup(d, "category"@) is None || lookup(d, "owner"@) is None {
        Some(MalformedDocument::MissingMetadataField)
    } else {
        None
    }
}

/// A required string field's value.
pub open spec fn req_str_of(o: Option<YamlVal>) -> Seq<char> {
    match o {
        Some(YamlVal::Str(s)) => s,
        _ => Seq::empty(),
    }
}

/// An optional string field's value: absent both when the key is missing
/// and when its value is empty.
pub open spec fn opt_str_of(o: Option<YamlVal>) -> Option<Seq<char>> {
    match o {
        Some(YamlVal::Str(s)) => Some(s),
        _ => None,
    }
}

/// A flag field's value: the string `yes` reads as true, any other string
/// as false, and an omitted field as false.
pub open spec fn yes_of(o: Option<YamlVal>) -> bool {
    match o {
        Some(YamlVal::Str(s)) => s == yes_label(),
        _ => false,
    }
}

/// A list field's value, empty when the field is omitted.
pub open spec fn list_of(o: Option<YamlVal>) -> Seq<Seq<char>> {
    match o {
        Some(YamlVal::List(l)) => l,
        _ => Seq::empty(),
    }
}

/// An optional integer field's value.
pub open spec fn int_of(o: Option<YamlVal>) -> Option<int> {
    match o {
        Some(YamlVal::Int(i)) => Some(i),
        _ => None,
    }
}

/// The category named by a field's value; meaningful only on a value that
/// passed [`val_err`].
pub open spec fn cat_of(o: Option<YamlVal>) -> Category {
    match o {
        Some(YamlVal::Str(s)) => match category_of_label(s) {
            Some(c) => c,
            None => Category::Copyleft,
        },
        _ => Category::Copyleft,
    }
}

/// The record an admissible document denotes, field by field. The `text`
/// field is no part of the document and starts out empty.
pub open spec fn record_of(d: Seq<(Seq<char>, YamlVal)>) -> RecordModel {
    RecordModel {
        key: req_str_of(lookup(d, "key"@)),
        short_name: req_str_of(lookup(d, "short_name"@)),
        name: req_str_of(lookup(d, "name"@)),
        category: cat_of(lookup(d, "category"@)),
        owner: req_str_of(lookup(d, "owner"@)),
        homepage_url: opt_str_of(lookup(d, "homepage_url"@)),
        notes: opt_str_of(lookup(d, "notes"@)),
        is_deprecated: yes_of(lookup(d, "is_deprecated"@)),
        spdx_license_key: opt_str_of(lookup(d, "spdx_license_key"@)),
        text_urls: list_of(lookup(d, "text_urls"@)),
        osi_url: opt_str_of(lookup(d, "osi_url"@)),
        osi_license_key: opt_str_of(lookup(d, "osi_license_key"@)),
        faq_url: opt_str_of(lookup(d, "faq_url"@)),
        other_urls: list_of(lookup(d, "other_urls"@)),
        is_exception: yes_of(lookup(d, "is_exception"@)),
        other_spdx_license_keys: list_of(lookup(d, "other_spdx_license_keys"@)),
        ignorable_copyrights: list_of(lookup(d, "ignorable_copyrights"@)),
        ignorable_holders: list_of(lookup(d, "ignorable_holders"@)),
        ignorable_authors: list_of(lookup(d, "ignorable_authors"@)),
        ignorable_urls: list_of(lookup(d, "ignorable_urls"@)),
        ignorable_emails: list_of(lookup(d, "ignorable_emails"@)),
        minimum_coverage: int_of(lookup(d, "minimum_coverage"@)),
        standard_notice: opt_str_of(lookup(d, "standard_notice"@)),
        language: opt_str_of(lookup(d, "language"@)),
        text: Seq::empty(),
    }
}

/// What decoding a parsed document yields: the first inadmissible pair's
/// error, else the error for an absent required field, else the record the
/// document denotes.
pub open spec fn decode_doc_spec(d: Seq<(Seq<char>, YamlVal)>) -> Result<
    RecordModel,
    MalformedDocument,
> {
    match first_err(d) {
        Some(e) => Err(e),
        None => match missing_err(d) {
            Some(e) => Err(e),
            None => Ok(record_of(d)),
        },
    }
}

/// What decoding a raw text yields: a syntax error where the text is not
/// one document of the model, else the decoding of the parsed document.
pub open spec fn decode_text_spec(t: Seq<char>) -> Result<RecordModel, MalformedDocument> {
    match yaml_doc_of(t) {
        None => Err(MalformedDocument::Syntax),
        Some(d) => decode_doc_spec(d),
    }
}

/// Each schema field name sits at its own slot: the schema's names are
/// pairwise distinct.
pub proof fn lemma_schema_slots()
    ensures
        slot_of("key"@) == 0,
        slot_of("short_name"@) == 1,
        slot_of("name"@) == 2,
        slot_of("category"@) == 3,
        slot_of("owner"@) == 4,
        slot_of("homepage_url"@) == 5,
        slot_of("notes"@) == 6,
        slot_of("is_deprecated"@) == 7,
        slot_of("spdx_license_key"@) == 8,
        slot_of("text_urls"@) == 9,
        slot_of("osi_url"@) == 10,
        slot_of("osi_license_key"@) == 11,
        slot_of("faq_url"@) == 12,
        slot_of("other_urls"@) == 13,
        slot_of("is_exception"@) == 14,
        slot_of("other_spdx_license_keys"@) == 15,
        slot_of("ignorable_copyrights"@) == 16,
        slot_of("ignorable_holders"@) == 17,
        slot_of("ignorable_authors"@) == 18,
        slot_of("ignorable_urls"@) == 19,
        slot_of("ignorable_emails"@) == 20,
        slot_of("minimum_coverage"@) == 21,
        slot_of("standard_notice"@) == 22,
        slot_of("language"@) == 23,
{
    reveal_strlit("key");
    reveal_strlit("short_name");
    reveal_strlit("name");
    reveal_strlit("category");
    reveal_strlit("owner");
    reveal_strlit("homepage_url");
    reveal_strlit("notes");
    reveal_strlit("is_deprecated");
    reveal_strlit("spdx_license_key");
    reveal_strlit("text_urls");
    reveal_strlit("osi_url");
    reveal_strlit("osi_license_key");
    reveal_strlit("faq_url");
    reveal_strlit("other_urls");
    reveal_strlit("is_exception");
    reveal_strlit("other_spdx_license_keys");
    reveal_strlit("ignorable_copyrights");
    reveal_strlit("ignorable_holders");
    reveal_strlit("ignorable_authors");
    reveal_strlit("ignorable_urls");
    reveal_strlit("ignorable_emails");
    reveal_strlit("minimum_coverage");
    reveal_strlit("standard_notice");
    reveal_strlit("language");
    assert("key"@.len() == 3);
    assert("short_name"@.len() == 10);
    assert("name"@.len() == 4);
    assert("category"@.len() == 8);
    assert("owner"@.len() == 5);
    assert("homepage_url"@.len() == 12);
    assert("notes"@.len() == 5);
    assert("is_deprecated"@.len() == 13);
    assert("spdx_license_key"@.len() == 16);
    assert("text_urls"@.len() == 9);
    assert("osi_url"@.len() == 7);
    assert("osi_license_key"@.len() == 15);
    assert("faq_url"@.len() == 7);
    assert("other_urls"@.len() == 10);
    assert("is_exception"@.len() == 12);
    assert("other_spdx_license_keys"@.len() == 23);
    assert("ignorable_copyrights"@.len() == 20);
    assert("ignorable_holders"@.len() == 17);
    assert("ignorable_authors"@.len() == 17);
    assert("ignorable_urls"@.len() == 14);
    assert("ignorable_emails"@.len() == 16);
    assert("minimum_coverage"@.len() == 16);
    assert("standard_notice"@.len() == 15);
    assert("language"@.len() == 8);
    assert("owner"@[0] != "notes"@[0]);
    assert("osi_url"@[0] != "faq_url"@[0]);
    assert("category"@[0] != "language"@[0]);
    assert("short_name"@[0] != "other_urls"@[0]);
    assert("homepage_url"@[0] != "is_exception"@[0]);
    assert("osi_license_key"@[0] != "standard_notice"@[0]);
    assert("spdx_license_key"@[0] != "ignorable_emails"@[0]);
    assert("spdx_license_key"@[0] != "minimum_coverage"@[0]);
    assert("ignorable_emails"@[0] != "minimum_coverage"@[0]);
    assert("ignorable_holders"@[10] != "ignorable_authors"@[10]);
}

/// Binding one more pair changes only its own key's binding.
pub proof fn lemma_lookup_push(
    d: Seq<(Seq<char>, YamlVal)>,
    p: (Seq<char>, YamlVal),
    k: Seq<char>,
)
    ensures
        lookup(d.push(p), k) == (if p.0 == k {
            Some(p.1)
        } else {
            lookup(d, k)
        }),
{
    assert(d.push(p).last() == p);
    assert(d.push(p).drop_last() =~= d);
}

/// A document all of whose pairs are admissible has no pair error.
pub proof fn lemma_first_err_none(d: Seq<(Seq<char>, YamlVal)>)
    requires
        forall|j: int| 0 <= j < d.len() ==> pair_err(d[j].0, d[j].1) is None,
    ensures
        first_err(d) is None,
    decreases d.len(),
{
    if d.len() > 0 {
        assert(forall|j: int|
            0 <= j < d.drop_first().len() ==> d.drop_first()[j] == d[j + 1]);
        lemma_first_err_none(d.drop_first());
    }
}

/// The first inadmissible pair decides the document's pair error.
pub proof fn lemma_first_err_at(d: Seq<(Seq<char>, YamlVal)>, i: int)
    requires
        0 <= i < d.len(),
        forall|j: int| 0 <= j < i ==> pair_err(d[j].0, d[j].1) is None,
        pair_err(d[i].0, d[i].1) is Some,
    ensures
        first_err(d) == pair_err(d[i].0, d[i].1),
    decreases i,
{
    if i > 0 {
        assert(forall|j: int|
            0 <= j < d.drop_first().len() ==> d.drop_first()[j] == d[j + 1]);
        lemma_first_err_at(d.drop_first(), i - 1);
    }
}

/// In a document whose pairs are all admissible, every bound value is
/// coercible to its key's field type.
pub proof fn lemma_lookup_ok(d: Seq<(Seq<char>, YamlVal)>, k: Seq<char>)
    requires
        forall|j: int| 0 <= j < d.len() ==> pair_err(d[j].0, d[j].1) is None,
        lookup(d, k) is Some,
    ensures
        pair_err(k, lookup(d, k).unwrap()) is None,
    decreases d.len(),
{
    if d.len() > 0 {
        if d.last().0 == k {
            assert(pair_err(d[d.len() - 1].0, d[d.len() - 1].1) is None);
        } else {
            assert(forall|j: int|
                0 <= j < d.drop_last().len() ==> d.drop_last()[j] == d[j]);
            lemma_lookup_ok(d.drop_last(), k);
        }
    }
}

/// The category whose external label is `s`, or nothing: decoding matches
/// the label exactly.
pub fn parse_category(s: &str) -> (r: Option<Category>)
    ensures
        r == category_of_label(s@),
{
    if str_eq(s, "Copyleft") {
        Some(Category::Copyleft)
    } else if str_eq(s, "Copyleft Limited") {
        Some(Category::CopyleftLimited)
    } else if str_eq(s, "Patent License") {
        Some(Category::PatentLicense)
    } else if str_eq(s, "Permissive") {
        Some(Category::Permissive)
    } else if str_eq(s, "Public Domain") {
        Some(Category::PublicDomain)
    } else if str_eq(s, "Commercial") {
        Some(Category::Commercial)
    } else if str_eq(s, "Proprietary Free") {
        Some(Category::ProprietaryFree)
    } else if str_eq(s, "Free Restricted") {
        Some(Category::FreeRestricted)
    } else if str_eq(s, "Source-available") {
        Some(Category::SourceAvailable)
    } else if str_eq(s, "Unstated License") {
        Some(Category::UnstatedLicense)
    } else {
        None
    }
}

/// The exact external label of a category, as the encoder writes it.
pub fn category_label_str(c: &Category) -> (r: &'static str)
    ensures
        r@ == category_label(*c),
{
    match c {
        Category::Copyleft => "Copyleft",
        Category::CopyleftLimited => "Copyleft Limited",
        Category::PatentLicense => "Patent License",
        Category::Permissive => "Permissive",
        Category::PublicDomain => "Public Domain",
        Category::Commercial => "Commercial",
        Category::ProprietaryFree => "Proprietary Free",
        Category::FreeRestricted => "Free Restricted",
        Category::SourceAvailable => "Source-available",
        Category::UnstatedLicense => "Unstated License",
    }
}

/// A copy of a string list, element by element.
fn clone_str_vec(v: &Vec<String>) -> (r: Vec<String>)
    ensures
        r.deep_view() == v.deep_view(),
{
    let mut r: Vec<String> = Vec::new();
    let mut i: usize = 0;
    while i < v.len()
        invariant
            0 <= i <= v.len(),
            r.len() == i,
            forall|j: int| 0 <= j < i ==> r.deep_view()[j] == v.deep_view()[j],
        decreases v.len() - i,
    {
        r.push(v[i].clone());
        i = i + 1;
    }
    proof {
        assert(r.deep_view() =~= v.deep_view());
    }
    r
}

/// The mathematical value of an optional bounded integer field.
pub open spec fn i32_opt_model(o: Option<i32>) -> Option<int> {
    match o {
        Some(v) => Some(v as int),
        None => None,
    }
}

/// Decode one raw metadata document into a license record.
///
/// Fails with the appropriate [`MalformedDocument`] error on syntactically
/// invalid input, a field name outside the schema, an absent required
/// field, a value that cannot be coerced to its field's type, or a category
/// label that matches no fixed label exactly. The record's `text` starts
/// out empty: it is never read from the document itself.
pub fn decode_record(text: &str) -> (r: Result<ScancodeLicense, MalformedDocument>)
    ensures
        (r matches Ok(lic) ==> decode_text_spec(text@) == Ok::<RecordModel, MalformedDocument>(
            lic@,
        )),
        (r matches Err(e) ==> decode_text_spec(text@) == Err::<RecordModel, MalformedDocument>(e)),
{
    let doc = match parse_yaml_document(text) {
        Some(d) => d,
        None => {
            return Err(MalformedDocument::Syntax);
        },
    };
    let ghost dm = doc_model(doc@);
    let mut key_v: String = String::new();
    let mut seen_key: bool = false;
    let mut short_name_v: String = String::new();
    let mut seen_short_name: bool = false;
    let mut name_v: String = String::new();
    let mut seen_name: bool = false;
    let mut category_v: Option<Category> = None;
    let mut owner_v: String = String::new();
    let mut seen_owner: bool = false;
    let mut homepage_url_v: Option<String> = None;
    let mut notes_v: Option<String> = None;
    let mut is_deprecated_v: bool = false;
    let mut spdx_license_key_v: Option<String> = None;
    let mut text_urls_v: Vec<String> = Vec::new();
    let mut osi_url_v: Option<String> = None;
    let mut osi_license_key_v: Option<String> = None;
    let mut faq_url_v: Option<String> = None;
    let mut other_urls_v: Vec<String> = Vec::new();
    let mut is_exception_v: bool = false;
    let mut other_spdx_license_keys_v: Vec<String> = Vec::new();
    let mut ignorable_copyrights_v: Vec<String> = Vec::new();
    let mut ignorable_holders_v: Vec<String> = Vec::new();
    let mut ignorable_authors_v: Vec<String> = Vec::new();
    let mut ignorable_urls_v: Vec<String> = Vec::new();
    let mut ignorable_emails_v: Vec<String> = Vec::new();
    let mut minimum_coverage_v: Option<i32> = None;
    let mut standard_notice_v: Option<String> = None;
    let mut language_v: Option<String> = None;
    let mut i: usize = 0;
    while i < doc.len()
        invariant
            0 <= i <= doc.len(),
            dm == doc_model(doc@),
            dm.len() == doc.len(),
            yaml_doc_of(text@) == Some(dm),
            forall|j: int| 0 <= j < i ==> pair_err(dm[j].0, dm[j].1) is None,
            key_v@ == req_str_of(lookup(dm.take(i as int), "key"@)),
            seen_key == (lookup(dm.take(i as int), "key"@) is Some),
            short_name_v@ == req_str_of(lookup(dm.take(i as int), "short_name"@)),
            seen_short_name == (lookup(dm.take(i as int), "short_name"@) is Some),
            name_v@ == req_str_of(lookup(dm.take(i as int), "name"@)),
            seen_name == (lookup(dm.take(i as int), "name"@) is Some),
            category_v matches Some(c) ==> lookup(dm.take(i as int), "category"@) matches Some(
                YamlVal::Str(s),
            ) && category_of_label(s) == Some(c),
            ((category_v is None) ==> (lookup(dm.take(i as int), "category"@) is None)),
            owner_v@ == req_str_of(lookup(dm.take(i as int), "owner"@)),
            seen_owner == (lookup(dm.take(i as int), "owner"@) is Some),
            homepage_url_v.deep_view() == opt_str_of(lookup(dm.take(i as int), "homepage_url"@)),
            notes_v.deep_view() == opt_str_of(lookup(dm.take(i as int), "notes"@)),
            is_deprecated_v == yes_of(lookup(dm.take(i as int), "is_deprecated"@)),
            spdx_license_key_v.deep_view() == opt_str_of(
                lookup(dm.take(i as int), "spdx_license_key"@),
            ),
            text_urls_v.deep_view() == list_of(lookup(dm.take(i as int), "text_urls"@)),
            osi_url_v.deep_view() == opt_str_of(lookup(dm.take(i as int), "osi_url"@)),
            osi_license_key_v.deep_view() == opt_str_of(
                lookup(dm.take(i as int), "osi_license_key"@),
            ),
            faq_url_v.deep_view() == opt_str_of(lookup(dm.take(i as int), "faq_url"@)),
            other_urls_v.deep_view() == list_of(lookup(dm.take(i as int), "other_urls"@)),
            is_exception_v == yes_of(lookup(dm.take(i as int), "is_exception"@)),
            other_spdx_license_keys_v.deep_view() == list_of(
                lookup(dm.take(i as int), "other_spdx_license_keys"@),
            ),
            ignorable_copyrights_v.deep_view() == list_of(
                lookup(dm.take(i as int), "ignorable_copyrights"@),
            ),
            ignorable_holders_v.deep_view() == list_of(
                lookup(dm.take(i as int), "ignorable_holders"@),
            ),
            ignorable_authors_v.deep_view() == list_of(
                lookup(dm.take(i as int), "ignorable_authors"@),
            ),
            ignorable_urls_v.deep_view() == list_of(lookup(dm.take(i as int), "ignorable_urls"@)),
            ignorable_emails_v.deep_view() == list_of(
                lookup(dm.take(i as int), "ignorable_emails"@),
            ),
            i32_opt_model(minimum_coverage_v) == int_of(
                lookup(dm.take(i as int), "minimum_coverage"@),
            ),
            standard_notice_v.deep_view() == opt_str_of(
                lookup(dm.take(i as int), "standard_notice"@),
            ),
            language_v.deep_view() == opt_str_of(lookup(dm.take(i as int), "language"@)),
        decreases doc.len() - i,
    {
        let pair = &doc[i];
        proof {
            lemma_schema_slots();
            assert(dm[i as int] == (pair.0@, pair.1@));
            assert(dm.take(i as int + 1) =~= dm.take(i as int).push(dm[i as int]));
            lemma_lookup_push(dm.take(i as int), dm[i as int], "key"@);
            lemma_lookup_push(dm.take(i as int), dm[i as int], "short_name"@);
            lemma_lookup_push(dm.take(i as int), dm[i as int], "name"@);
            lemma_lookup_push(dm.take(i as int), dm[i as int], "category"@);
            lemma_lookup_push(dm.take(i as int), dm[i as int], "owner"@);
            lemma_lookup_push(dm.take(i as int), dm[i as int], "homepage_url"@);
            lemma_lookup_push(dm.take(i as int), dm[i as int], "notes"@);
            lemma_lookup_push(dm.take(i as int), dm[i as int], "is_deprecated"@);
            lemma_lookup_push(dm.take(i as int), dm[i as int], "spdx_license_key"@);
            lemma_lookup_push(dm.take(i as int), dm[i as int], "text_urls"@);
            lemma_lookup_push(dm.take(i as int), dm[i as int], "osi_url"@);
            lemma_lookup_push(dm.take(i as int), dm[i as int], "osi_license_key"@);
            lemma_lookup_push(dm.take(i as int), dm[i as int], "faq_url"@);
            lemma_lookup_push(dm.take(i as int), dm[i as int], "other_urls"@);
            lemma_lookup_push(dm.take(i as int), dm[i as int], "is_exception"@);
            lemma_lookup_push(dm.take(i as int), dm[i as int], "other_spdx_license_keys"@);
            lemma_lookup_push(dm.take(i as int), dm[i as int], "ignorable_copyrights"@);
            lemma_lookup_push(dm.take(i as int), dm[i as int], "ignorable_holders"@);
            lemma_lookup_push(dm.take(i as int), dm[i as int], "ignorable_authors"@);
            lemma_lookup_push(dm.take(i as int), dm[i as int], "ignorable_urls"@);
            lemma_lookup_push(dm.take(i as int), dm[i as int], "ignorable_emails"@);
            lemma_lookup_push(dm.take(i as int), dm[i as int], "minimum_coverage"@);
            lemma_lookup_push(dm.take(i as int), dm[i as int], "standard_notice"@);
            lemma_lookup_push(dm.take(i as int), dm[i as int], "language"@);
        }
        let k = pair.0.as_str();
        if str_eq(k, "key") {
            match &pair.1 {
                Val::Str(s) => {
                    key_v = s.clone();
                    seen_key = true;
                },
                _ => {
                    proof {
                        lemma_first_err_at(dm, i as int);
                    }
                    return Err(MalformedDocument::TypeMismatch);
                },
            }
        } else if str_eq(k, "short_name") {
            match &pair.1 {
                Val::Str(s) => {
                    short_name_v = s.clone();
                    seen_short_name = true;
                },
                _ => {
                    proof {
                        lemma_first_err_at(dm, i as int);
                    }
                    return Err(MalformedDocument::TypeMismatch);
                },
            }
        } else if str_eq(k, "name") {
            match &pair.1 {
                Val::Str(s) => {
                    name_v = s.clone();
                    seen_name = true;
                },
                _ => {
                    proof {
                        lemma_first_err_at(dm, i as int);
                    }
                    return Err(MalformedDocument::TypeMismatch);
                },
            }
        } else if str_eq(k, "category") {
            match &pair.1 {
                Val::Str(s) => match parse_category(s.as_str()) {
                    Some(c) => {
                        category_v = Some(c);
                    },
                    None => {
                        proof {
                            lemma_first_err_at(dm, i as int);
                        }
                        return Err(MalformedDocument::InvalidEnumLabel);
                    },
                },
                _ => {
                    proof {
                        lemma_first_err_at(dm, i as int);
                    }
                    return Err(MalformedDocument::TypeMismatch);
                },
            }
        } else if str_eq(k, "owner") {
            match &pair.1 {
                Val::Str(s) => {
                    owner_v = s.clone();
                    seen_owner = true;
                },
                _ => {
                    proof {
                        lemma_first_err_at(dm, i as int);
                    }
                    return Err(MalformedDocument::TypeMismatch);
                },
            }
        } else if str_eq(k, "homepage_url") {
            match &pair.1 {
                Val::Str(s) => {
                    homepage_url_v = Some(s.clone());
                },
                Val::Null => {
                    homepage_url_v = None;
                },
                _ => {
                    proof {
                        lemma_first_err_at(dm, i as int);
                    }
                    return Err(MalformedDocument::TypeMismatch);
                },
            }
        } else if str_eq(k, "notes") {
            match &pair.1 {
                Val::Str(s) => {
                    notes_v = Some(s.clone());
                },
                Val::Null => {
                    notes_v = None;
                },
                _ => {
                    proof {
                        lemma_first_err_at(dm, i as int);
                    }
                    return Err(MalformedDocument::TypeMismatch);
                },
            }
        } else if str_eq(k, "is_deprecated") {
            match &pair.1 {
                Val::Str(s) => {
                    is_deprecated_v = str_eq(s.as_str(), "yes");
                },
                _ => {
                    proof {
                        lemma_first_err_at(dm, i as int);
                    }
                    return Err(MalformedDocument::TypeMismatch);
                },
            }
        } else if str_eq(k, "spdx_license_key") {
            match &pair.1 {
                Val::Str(s) => {
                    spdx_license_key_v = Some(s.clone());
                },
                Val::Null => {
                    spdx_license_key_v = None;
                },
                _ => {
                    proof {
                        lemma_first_err_at(dm, i as int);
                    }
                    return Err(MalformedDocument::TypeMismatch);
                },
            }
        } else if str_eq(k, "text_urls") {
            match &pair.1 {
                Val::List(l) => {
                    text_urls_v = clone_str_vec(l);
                },
                _ => {
                    proof {
                        lemma_first_err_at(dm, i as int);
                    }
                    return Err(MalformedDocument::TypeMismatch);
                },
            }
        } else if str_eq(k, "osi_url") {
            match &pair.1 {
                Val::Str(s) => {
                    osi_url_v = Some(s.clone());
                },
                Val::Null => {
                    osi_url_v = None;
                },
                _ => {
                    proof {
                        lemma_first_err_at(dm, i as int);
                    }
                    return Err(MalformedDocument::TypeMismatch);
                },
            }
        } else if str_eq(k, "osi_license_key") {
            match &pair.1 {
                Val::Str(s) => {
                    osi_license_key_v = Some(s.clone());
                },
                Val::Null => {
                    osi_license_key_v = None;
                },
                _ => {
                    proof {
                        lemma_first_err_at(dm, i as int);
                    }
                    return Err(MalformedDocument::TypeMismatch);
                },
            }
        } else if str_eq(k, "faq_url") {
            match &pair.1 {
                Val::Str(s) => {
                    faq_url_v = Some(s.clone());
                },
                Val::Null => {
                    faq_url_v = None;
                },
                _ => {
                    proof {
                        lemma_first_err_at(dm, i as int);
                    }
                    return Err(MalformedDocument::TypeMismatch);
                },
            }
        } else if str_eq(k, "other_urls") {
            match &pair.1 {
                Val::List(l) => {
                    other_urls_v = clone_str_vec(l);
                },
                _ => {
                    proof {
                        lemma_first_err_at(dm, i as int);
                    }
                    return Err(MalformedDocument::TypeMismatch);
                },
            }
        } else if str_eq(k, "is_exception") {
            match &pair.1 {
                Val::Str(s) => {
                    is_exception_v = str_eq(s.as_str(), "yes");
                },
                _ => {
                    proof {
                        lemma_first_err_at(dm, i as int);
                    }
                    return Err(MalformedDocument::TypeMismatch);
                },
            }
        } else if str_eq(k, "other_spdx_license_keys") {
            match &pair.1 {
                Val::List(l) => {
                    other_spdx_license_keys_v = clone_str_vec(l);
                },
                _ => {
                    proof {
                        lemma_first_err_at(dm, i as int);
                    }
                    return Err(MalformedDocument::TypeMismatch);
                },
            }
        } else if str_eq(k, "ignorable_copyrights") {
            match &pair.1 {
                Val::List(l) => {
                    ignorable_copyrights_v = clone_str_vec(l);
                },
                _ => {
                    proof {
                        lemma_first_err_at(dm, i as int);
                    }
                    return Err(MalformedDocument::TypeMismatch);
                },
            }
        } else if str_eq(k, "ignorable_holders") {
            match &pair.1 {
                Val::List(l) => {
                    ignorable_holders_v = clone_str_vec(l);
                },
                _ => {
                    proof {
                        lemma_first_err_at(dm, i as int);
                    }
                    return Err(MalformedDocument::TypeMismatch);
                },
            }
        } else if str_eq(k, "ignorable_authors") {
            match &pair.1 {
                Val::List(l) => {
                    ignorable_authors_v = clone_str_vec(l);
                },
                _ => {
                    proof {
                        lemma_first_err_at(dm, i as int);
                    }
                    return Err(MalformedDocument::TypeMismatch);
                },
            }
        } else if str_eq(k, "ignorable_urls") {
            match &pair.1 {
                Val::List(l) => {
                    ignorable_urls_v = clone_str_vec(l);
                },
                _ => {
                    proof {
                        lemma_first_err_at(dm, i as int);
                    }
                    return Err(MalformedDocument::TypeMismatch);
                },
            }
        } else if str_eq(k, "ignorable_emails") {
            match &pair.1 {
                Val::List(l) => {
                    ignorable_emails_v = clone_str_vec(l);
                },
                _ => {
                    proof {
                        lemma_first_err_at(dm, i as int);
                    }
                    return Err(MalformedDocument::TypeMismatch);
                },
            }
        } else if str_eq(k, "minimum_coverage") {
            match &pair.1 {
                Val::Int(n) => {
                    if *n < -2147483648i64 || *n > 2147483647i64 {
                        proof {
                            lemma_first_err_at(dm, i as int);
                        }
                        return Err(MalformedDocument::TypeMismatch);
                    }
                    minimum_coverage_v = Some(*n as i32);
                },
                Val::Null => {
                    minimum_coverage_v = None;
                },
                _ => {
                    proof {
                        lemma_first_err_at(dm, i as int);
                    }
                    return Err(MalformedDocument::TypeMismatch);
                },
            }
        } else if str_eq(k, "standard_notice") {
            match &pair.1 {
                Val::Str(s) => {
                    standard_notice_v = Some(s.clone());
                },
                Val::Null => {
                    standard_notice_v = None;
                },
                _ => {
                    proof {
                        lemma_first_err_at(dm, i as int);
                    }
                    return Err(MalformedDocument::TypeMismatch);
                },
            }
        } else if str_eq(k, "language") {
            match &pair.1 {
                Val::Str(s) => {
                    language_v = Some(s.clone());
                },
                Val::Null => {
                    language_v = None;
                },
                _ => {
                    proof {
                        lemma_first_err_at(dm, i as int);
                    }
                    return Err(MalformedDocument::TypeMismatch);
                },
            }
        } else {
            proof {
                lemma_first_err_at(dm, i as int);
            }
            return Err(MalformedDocument::UnknownField);
        }
        i = i + 1;
    }
    proof {
        assert(dm.take(doc.len() as int) =~= dm);
        lemma_first_err_none(dm);
    }
    let cat = match category_v {
        Some(c) => c,
        None => {
            return Err(MalformedDocument::MissingMetadataField);
        },
    };
    if !seen_key || !seen_short_name || !seen_name || !seen_owner {
        return Err(MalformedDocument::MissingMetadataField);
    }
    let lic = ScancodeLicense {
        key: key_v,
        short_name: short_name_v,
        name: name_v,
        category: cat,
        owner: owner_v,
        homepage_url: homepage_url_v,
        notes: notes_v,
        is_deprecated: is_deprecated_v,
        spdx_license_key: spdx_license_key_v,
        text_urls: text_urls_v,
        osi_url: osi_url_v,
        osi_license_key: osi_license_key_v,
        faq_url: faq_url_v,
        other_urls: other_urls_v,
        is_exception: is_exception_v,
        other_spdx_license_keys: other_spdx_license_keys_v,
        ignorable_copyrights: ignorable_copyrights_v,
        ignorable_holders: ignorable_holders_v,
        ignorable_authors: ignorable_authors_v,
        ignorable_urls: ignorable_urls_v,
        ignorable_emails: ignorable_emails_v,
        minimum_coverage: minimum_coverage_v,
        standard_notice: standard_notice_v,
        language: language_v,
        text: String::new(),
    };
    proof {
        assert(lic@ == record_of(dm));
    }
    Ok(lic)
}

/// The document pairs a single slot of the schema contributes when a
/// record is encoded: one pair, or none where the field holds its default
/// (an absent optional, an empty list, a false flag), which the encoder
/// omits entirely.
pub open spec fn enc_at(r: RecordModel, s: int) -> Option<(Seq<char>, YamlVal)> {
    if s == 0 {
        Some(("key"@, YamlVal::Str(r.key)))
    } else if s == 1 {
        Some(("short_name"@, YamlVal::Str(r.short_name)))
    } else if s == 2 {
        Some(("name"@, YamlVal::Str(r.name)))
    } else if s == 3 {
        Some(("category"@, YamlVal::Str(category_label(r.category))))
    } else if s == 4 {
        Some(("owner"@, YamlVal::Str(r.owner)))
    } else if s == 5 {
        match r.homepage_url {
            Some(u) => Some(("homepage_url"@, YamlVal::Str(u))),
            None => None,
        }
    } else if s == 6 {
        match r.notes {
            Some(u) => Some(("notes"@, YamlVal::Str(u))),
            None => None,
        }
    } else if s == 7 {
        if r.is_deprecated {
            Some(("is_deprecated"@, YamlVal::Str(yes_label())))
        } else {
            None
        }
    } else if s == 8 {
        match r.spdx_license_key {
            Some(u) => Some(("spdx_license_key"@, YamlVal::Str(u))),
            None => None,
        }
    } else if s == 9 {
        if r.text_urls.len() > 0 {
            Some(("text_urls"@, YamlVal::List(r.text_urls)))
        } else {
            None
        }
    } else if s == 10 {
        match r.osi_url {
            Some(u) => Some(("osi_url"@, YamlVal::Str(u))),
            None => None,
        }
    } else if s == 11 {
        match r.osi_license_key {
            Some(u) => Some(("osi_license_key"@, YamlVal::Str(u))),
            None => None,
        }
    } else if s == 12 {
        match r.faq_url {
            Some(u) => Some(("faq_url"@, YamlVal::Str(u))),
            None => None,
        }
    } else if s == 13 {
        if r.other_urls.len() > 0 {
            Some(("other_urls"@, YamlVal::List(r.other_urls)))
        } else {
            None
        }
    } else if s == 14 {
        if r.is_exception {
            Some(("is_exception"@, YamlVal::Str(yes_label())))
        } else {
            None
        }
    } else if s == 15 {
        if r.other_spdx_license_keys.len() > 0 {
            Some(("other_spdx_license_keys"@, YamlVal::List(r.other_spdx_license_keys)))
        } else {
            None
        }
    } else if s == 16 {
        if r.ignorable_copyrights.len() > 0 {
            Some(("ignorable_copyrights"@, YamlVal::List(r.ignorable_copyrights)))
        } else {
            None
        }
    } else if s == 17 {
        if r.ignorable_holders.len() > 0 {
            Some(("ignorable_holders"@, YamlVal::List(r.ignorable_holders)))
        } else {
            None
        }
    } else if s == 18 {
        if r.ignorable_authors.len() > 0 {
            Some(("ignorable_authors"@, YamlVal::List(r.ignorable_authors)))
        } else {
            None
        }
    } else if s == 19 {
        if r.ignorable_urls.len() > 0 {
            Some(("ignorable_urls"@, YamlVal::List(r.ignorable_urls)))
        } else {
            None
        }
    } else if s == 20 {
        if r.ignorable_emails.len() > 0 {
            Some(("ignorable_emails"@, YamlVal::List(r.ignorable_emails)))
        } else {
            None
        }
    } else if s == 21 {
        match r.minimum_coverage {
            Some(n) => Some(("minimum_coverage"@, YamlVal::Int(n))),
            None => None,
        }
    } else if s == 22 {
        match r.standard_notice {
            Some(u) => Some(("standard_notice"@, YamlVal::Str(u))),
            None => None,
        }
    } else if s == 23 {
        match r.language {
            Some(u) => Some(("language"@, YamlVal::Str(u))),
            None => None,
        }
    } else {
        None
    }
}

/// A slot's contribution as a sequence of zero or one pairs.
pub open spec fn opt_pair_seq(o: Option<(Seq<char>, YamlVal)>) -> Seq<(Seq<char>, YamlVal)> {
    match o {
        Some(p) => seq![p],
        None => Seq::empty(),
    }
}

/// The document the first `m` slots of the schema contribute, in schema
/// order.
pub open spec fn enc_prefix(r: RecordModel, m: int) -> Seq<(Seq<char>, YamlVal)>
    decreases m,
{
    if m <= 0 {
        Seq::empty()
    } else {
        enc_prefix(r, m - 1) + opt_pair_seq(enc_at(r, m - 1))
    }
}

/// The document a record encodes to: every non-default field under its
/// schema name, in schema order, with the flags written as `yes` and every
/// default omitted.
pub open spec fn encoded_doc(r: RecordModel) -> Seq<(Seq<char>, YamlVal)> {
    enc_prefix(r, 24)
}

/// Shape of an encoded document prefix: every pair is the contribution of
/// its own slot, the slots grow strictly along the document, and every
/// contributing slot's pair is present.
pub proof fn lemma_enc_prefix_char(r: RecordModel, m: int)
    requires
        0 <= m <= 24,
    ensures
        forall|i: int| #![trigger enc_prefix(r, m)[i]]
            0 <= i < enc_prefix(r, m).len() ==> 0 <= slot_of(enc_prefix(r, m)[i].0) < m
                && enc_at(r, slot_of(enc_prefix(r, m)[i].0)) == Some(enc_prefix(r, m)[i]),
        forall|i: int, j: int|
            0 <= i < j < enc_prefix(r, m).len() ==> slot_of(enc_prefix(r, m)[i].0) < slot_of(
                enc_prefix(r, m)[j].0,
            ),
        forall|s: int| #![trigger enc_at(r, s)]
            0 <= s < m && enc_at(r, s) is Some ==> exists|i: int|
                0 <= i < enc_prefix(r, m).len() && enc_prefix(r, m)[i] == enc_at(r, s).unwrap(),
    decreases m,
{
    lemma_schema_slots();
    if m > 0 {
        lemma_enc_prefix_char(r, m - 1);
        let d0 = enc_prefix(r, m - 1);
        let b = enc_at(r, m - 1);
        assert(enc_prefix(r, m) == d0 + opt_pair_seq(b));
        match b {
            None => {
                assert(enc_prefix(r, m) =~= d0);
            },
            Some(p) => {
                assert(slot_of(p.0) == m - 1);
                assert(enc_prefix(r, m).len() == d0.len() + 1);
                assert(enc_prefix(r, m)[d0.len() as int] == p);
                assert(forall|i: int| 0 <= i < d0.len() ==> enc_prefix(r, m)[i] == d0[i]);
            },
        }
    }
}

/// An encoded document binds each of its keys once, and every value lies
/// inside the document model.
pub proof fn lemma_encoded_doc_wf(r: RecordModel)
    ensures
        crate::yaml::distinct_keys(encoded_doc(r)),
        crate::yaml::no_foreign_values(encoded_doc(r)),
{
    lemma_enc_prefix_char(r, 24);
    assert forall|i: int, j: int| 0 <= i < j < encoded_doc(r).len() implies encoded_doc(r)[i].0
        != encoded_doc(r)[j].0 by {
        assert(slot_of(encoded_doc(r)[i].0) < slot_of(encoded_doc(r)[j].0));
    }
    assert forall|i: int| 0 <= i < encoded_doc(r).len() implies !(encoded_doc(r)[i].1
        is Other) by {
        let s = slot_of(encoded_doc(r)[i].0);
        assert(enc_at(r, s) == Some(encoded_doc(r)[i]));
    }
}

/// Encode a license record into a raw metadata document.
///
/// Total: every record encodes. Each field stands under its schema name in
/// schema order; a field holding its default (an absent optional, an empty
/// list, a false flag) is omitted entirely; the flag fields are written as
/// the string `yes`; the record's `text` is never written.
/// Append the contributions of the first six schema slots.
#[verifier::rlimit(100)]
fn encode_fields_a(lic: &ScancodeLicense, v: &mut Vec<(String, Val)>)
    requires
        doc_model(old(v)@) == enc_prefix(lic@, 0),
    ensures
        doc_model(final(v)@) == enc_prefix(lic@, 6),
{
    v.push((String::from_str("key"), Val::Str(lic.key.clone())));
    proof {
        assert(doc_model(v@) =~= enc_prefix(lic@, 1));
    }
    v.push((String::from_str("short_name"), Val::Str(lic.short_name.clone())));
    proof {
        assert(doc_model(v@) =~= enc_prefix(lic@, 2));
    }
    v.push((String::from_str("name"), Val::Str(lic.name.clone())));
    proof {
        assert(doc_model(v@) =~= enc_prefix(lic@, 3));
    }
    v.push((String::from_str("category"), Val::Str(String::from_str(category_label_str(&lic.category)))));
    proof {
        assert(doc_model(v@) =~= enc_prefix(lic@, 4));
    }
    v.push((String::from_str("owner"), Val::Str(lic.owner.clone())));
    proof {
        assert(doc_model(v@) =~= enc_prefix(lic@, 5));
    }
    if let Some(u) = &lic.homepage_url {
        v.push((String::from_str("homepage_url"), Val::Str(u.clone())));
    }
    proof {
        assert(doc_model(v@) =~= enc_prefix(lic@, 6));
    }
}

/// Append the contributions of the next six schema slots.
#[verifier::rlimit(100)]
fn encode_fields_b(lic: &ScancodeLicense, v: &mut Vec<(String, Val)>)
    requires
        doc_model(old(v)@) == enc_prefix(lic@, 6),
    ensures
        doc_model(final(v)@) == enc_prefix(lic@, 12),
{
    if let Some(u) = &lic.notes {
        v.push((String::from_str("notes"), Val::Str(u.clone())));
    }
    proof {
        assert(doc_model(v@) =~= enc_prefix(lic@, 7));
    }
    if lic.is_deprecated {
        v.push((String::from_str("is_deprecated"), Val::Str(String::from_str("yes"))));
    }
    proof {
        assert(doc_model(v@) =~= enc_prefix(lic@, 8));
    }
    if let Some(u) = &lic.spdx_license_key {
        v.push((String::from_str("spdx_license_key"), Val::Str(u.clone())));
    }
    proof {
        assert(doc_model(v@) =~= enc_prefix(lic@, 9));
    }
    if lic.text_urls.len() > 0 {
        v.push((String::from_str("text_urls"), Val::List(clone_str_vec(&lic.text_urls))));
    }
    proof {
        assert(doc_model(v@) =~= enc_prefix(lic@, 10));
    }
    if let Some(u) = &lic.osi_url {
        v.push((String::from_str("osi_url"), Val::Str(u.clone())));
    }
    proof {
        assert(doc_model(v@) =~= enc_prefix(lic@, 11));
    }
    if let Some(u) = &lic.osi_license_key {
        v.push((String::from_str("osi_license_key"), Val::Str(u.clone())));
    }
    proof {
        assert(doc_model(v@) =~= enc_prefix(lic@, 12));
    }
}

/// Append the contributions of the next six schema slots.
#[verifier::rlimit(100)]
fn encode_fields_c(lic: &ScancodeLicense, v: &mut Vec<(String, Val)>)
    requires
        doc_model(old(v)@) == enc_prefix(lic@, 12),
    ensures
        doc_model(final(v)@) == enc_prefix(lic@, 18),
{
    if let Some(u) = &lic.faq_url {
        v.push((String::from_str("faq_url"), Val::Str(u.clone())));
    }
    proof {
        assert(doc_model(v@) =~= enc_prefix(lic@, 13));
    }
    if lic.other_urls.len() > 0 {
        v.push((String::from_str("other_urls"), Val::List(clone_str_vec(&lic.other_urls))));
    }
    proof {
        assert(doc_model(v@) =~= enc_prefix(lic@, 14));
    }
    if lic.is_exception {
        v.push((String::from_str("is_exception"), Val::Str(String::from_str("yes"))));
    }
    proof {
        assert(doc_model(v@) =~= enc_prefix(lic@, 15));
    }
    if lic.other_spdx_license_keys.len() > 0 {
        v.push((
            String::from_str("other_spdx_license_keys"),
            Val::List(clone_str_vec(&lic.other_spdx_license_keys)),
        ));
    }
    proof {
        assert(doc_model(v@) =~= enc_prefix(lic@, 16));
    }
    if lic.ignorable_copyrights.len() > 0 {
        v.push((
            String::from_str("ignorable_copyrights"),
            Val::List(clone_str_vec(&lic.ignorable_copyrights)),
        ));
    }
    proof {
        assert(doc_model(v@) =~= enc_prefix(lic@, 17));
    }
    if lic.ignorable_holders.len() > 0 {
        v.push((
            String::from_str("ignorable_holders"),
            Val::List(clone_str_vec(&lic.ignorable_holders)),
        ));
    }
    proof {
        assert(doc_model(v@) =~= enc_prefix(lic@, 18));
    }
}

/// Append the contributions of the last six schema slots.
#[verifier::rlimit(100)]
fn encode_fields_d(lic: &ScancodeLicense, v: &mut Vec<(String, Val)>)
    requires
        doc_model(old(v)@) == enc_prefix(lic@, 18),
    ensures
        doc_model(final(v)@) == enc_prefix(lic@, 24),
{
    if lic.ignorable_authors.len() > 0 {
        v.push((
            String::from_str("ignorable_authors"),
            Val::List(clone_str_vec(&lic.ignorable_authors)),
        ));
    }
    proof {
        assert(doc_model(v@) =~= enc_prefix(lic@, 19));
    }
    if lic.ignorable_urls.len() > 0 {
        v.push((String::from_str("ignorable_urls"), Val::List(clone_str_vec(&lic.ignorable_urls))));
    }
    proof {
        assert(doc_model(v@) =~= enc_prefix(lic@, 20));
    }
    if lic.ignorable_emails.len() > 0 {
        v.push((
            String::from_str("ignorable_emails"),
            Val::List(clone_str_vec(&lic.ignorable_emails)),
        ));
    }
    proof {
        assert(doc_model(v@) =~= enc_prefix(lic@, 21));
    }
    if let Some(n) = lic.minimum_coverage {
        v.push((String::from_str("minimum_coverage"), Val::Int(n as i64)));
    }
    proof {
        assert(doc_model(v@) =~= enc_prefix(lic@, 22));
    }
    if let Some(u) = &lic.standard_notice {
        v.push((String::from_str("standard_notice"), Val::Str(u.clone())));
    }
    proof {
        assert(doc_model(v@) =~= enc_prefix(lic@, 23));
    }
    if let Some(u) = &lic.language {
        v.push((String::from_str("language"), Val::Str(u.clone())));
    }
    proof {
        assert(doc_model(v@) =~= enc_prefix(lic@, 24));
    }
}

/// Encode a license record into a raw metadata document.
///
/// Total: every record encodes. Each field stands under its schema name in
/// schema order; a field holding its default (an absent optional, an empty
/// list, a false flag) is omitted entirely; the flag fields are written as
/// the string `yes`; the record's `text` is never written.
pub fn encode_record(lic: &ScancodeLicense) -> (out: String)
    ensures
        yaml_doc_of(out@) == Some(encoded_doc(lic@)),
{
    let mut v: Vec<(String, Val)> = Vec::new();
    proof {
        assert(doc_model(v@) =~= enc_prefix(lic@, 0));
    }
    encode_fields_a(lic, &mut v);
    encode_fields_b(lic, &mut v);
    encode_fields_c(lic, &mut v);
    encode_fields_d(lic, &mut v);
    proof {
        lemma_encoded_doc_wf(lic@);
    }
    crate::yaml::emit_yaml_document(&v)
}


/// The non-standard boolean decoding: the string `yes` reads as true, and
/// every other string as false.
pub open spec fn bool_of_yes(s: Seq<char>) -> bool {
    s == yes_label()
}

/// The strict boolean encoding: `yes` for true, `no` for false.
pub open spec fn yes_str_from_bool(b: bool) -> Seq<char> {
    if b {
        "yes"@
    } else {
        "no"@
    }
}

/// Decode the non-standard boolean encoding: exactly the string `yes` is
/// true; `no`, the empty string and every other token read as false.
pub fn bool_from_yes(s: &str) -> (b: bool)
    ensures
        b == bool_of_yes(s@),
{
    str_eq(s, "yes")
}

/// Encode a boolean strictly: `yes` for true, `no` for false.
pub fn yes_from_bool(b: bool) -> (r: &'static str)
    ensures
        r@ == yes_str_from_bool(b),
{
    if b {
        "yes"
    } else {
        "no"
    }
}

/// Check if false.
pub fn is_false(b: &bool) -> (r: bool)
    ensures
        r == !*b,
{
    !*b
}

/// The boolean codec is a permissive read with a strict write: decoding
/// reads exactly `yes` as true, and whatever a flag holds, encoding it and
/// decoding the result gives the flag back.
pub proof fn lemma_boolean_codec(s: Seq<char>, b: bool)
    ensures
        yes_of(Some(YamlVal::Str(s))) == (s == "yes"@),
        yes_str_from_bool(true) == "yes"@,
        yes_str_from_bool(false) == "no"@,
        bool_of_yes(yes_str_from_bool(b)) == b,
{
    reveal_strlit("yes");
    reveal_strlit("no");
    assert("yes"@.len() == 3);
    assert("no"@.len() == 2);
}

/// A document all of whose pairs pass has every pair admissible.
pub proof fn lemma_first_err_none_inv(d: Seq<(Seq<char>, YamlVal)>)
    requires
        first_err(d) is None,
    ensures
        forall|j: int| 0 <= j < d.len() ==> pair_err(d[j].0, d[j].1) is None,
    decreases d.len(),
{
    if d.len() > 0 {
        lemma_first_err_none_inv(d.drop_first());
        assert(forall|j: int|
            1 <= j < d.len() ==> d[j] == d.drop_first()[j - 1]);
    }
}

/// Unknown-field rejection: a document holding any key outside the schema
/// never decodes into a record.
pub proof fn lemma_unknown_field_rejected(d: Seq<(Seq<char>, YamlVal)>, i: int)
    requires
        0 <= i < d.len(),
        slot_of(d[i].0) == -1,
    ensures
        decode_doc_spec(d) is Err,
{
    if first_err(d) is None {
        lemma_first_err_none_inv(d);
        assert(pair_err(d[i].0, d[i].1) is None);
        assert(false);
    }
}

/// In a document with pairwise distinct keys, every pair is its own key's
/// binding.
pub proof fn lemma_lookup_unique(d: Seq<(Seq<char>, YamlVal)>, i: int)
    requires
        crate::yaml::distinct_keys(d),
        0 <= i < d.len(),
    ensures
        lookup(d, d[i].0) == Some(d[i].1),
    decreases d.len(),
{
    if i == d.len() - 1 {
        assert(d.last() == d[i]);
    } else {
        assert(d.last().0 != d[i].0);
        assert(forall|j: int| 0 <= j < d.drop_last().len() ==> d.drop_last()[j] == d[j]);
        lemma_lookup_unique(d.drop_last(), i);
    }
}

/// A key under which the document holds no pair is unbound.
pub proof fn lemma_lookup_none(d: Seq<(Seq<char>, YamlVal)>, k: Seq<char>)
    requires
        forall|j: int| 0 <= j < d.len() ==> d[j].0 != k,
    ensures
        lookup(d, k) is None,
    decreases d.len(),
{
    if d.len() > 0 {
        assert(forall|j: int| 0 <= j < d.drop_last().len() ==> d.drop_last()[j] == d[j]);
        lemma_lookup_none(d.drop_last(), k);
    }
}

/// A slot the encoder fills is bound, in the encoded document, to exactly
/// the value the encoder wrote.
pub proof fn lemma_enc_lookup(r: RecordModel, s: int)
    requires
        0 <= s < 24,
        enc_at(r, s) is Some,
    ensures
        lookup(encoded_doc(r), enc_at(r, s).unwrap().0) == Some(enc_at(r, s).unwrap().1),
{
    lemma_enc_prefix_char(r, 24);
    lemma_encoded_doc_wf(r);
    let p = enc_at(r, s).unwrap();
    let i = choose|i: int| 0 <= i < encoded_doc(r).len() && encoded_doc(r)[i] == p;
    lemma_lookup_unique(encoded_doc(r), i);
}

/// A slot the encoder omits leaves its key unbound in the encoded
/// document.
pub proof fn lemma_enc_lookup_none(r: RecordModel, k: Seq<char>)
    requires
        0 <= slot_of(k) < 24,
        enc_at(r, slot_of(k)) is None,
    ensures
        lookup(encoded_doc(r), k) is None,
{
    lemma_enc_prefix_char(r, 24);
    let e = encoded_doc(r);
    assert forall|j: int| 0 <= j < e.len() implies e[j].0 != k by {
        if e[j].0 == k {
            assert(enc_at(r, slot_of(k)) == Some(e[j]));
        }
    }
    lemma_lookup_none(e, k);
}

/// Default omission: the encoder never emits a key whose field holds its
/// default value (an absent optional, an empty list, a false flag).
pub proof fn lemma_default_omission(r: RecordModel)
    ensures
        r.homepage_url is None ==> lookup(encoded_doc(r), "homepage_url"@) is None,
        r.notes is None ==> lookup(encoded_doc(r), "notes"@) is None,
        !r.is_deprecated ==> lookup(encoded_doc(r), "is_deprecated"@) is None,
        r.spdx_license_key is None ==> lookup(encoded_doc(r), "spdx_license_key"@) is None,
        r.text_urls.len() == 0 ==> lookup(encoded_doc(r), "text_urls"@) is None,
        r.osi_url is None ==> lookup(encoded_doc(r), "osi_url"@) is None,
        r.osi_license_key is None ==> lookup(encoded_doc(r), "osi_license_key"@) is None,
        r.faq_url is None ==> lookup(encoded_doc(r), "faq_url"@) is None,
        r.other_urls.len() == 0 ==> lookup(encoded_doc(r), "other_urls"@) is None,
        !r.is_exception ==> lookup(encoded_doc(r), "is_exception"@) is None,
        r.other_spdx_license_keys.len() == 0 ==> lookup(
            encoded_doc(r),
            "other_spdx_license_keys"@,
        ) is None,
        r.ignorable_copyrights.len() == 0 ==> lookup(
            encoded_doc(r),
            "ignorable_copyrights"@,
        ) is None,
        r.ignorable_holders.len() == 0 ==> lookup(encoded_doc(r), "ignorable_holders"@) is None,
        r.ignorable_authors.len() == 0 ==> lookup(encoded_doc(r), "ignorable_authors"@) is None,
        r.ignorable_urls.len() == 0 ==> lookup(encoded_doc(r), "ignorable_urls"@) is None,
        r.ignorable_emails.len() == 0 ==> lookup(encoded_doc(r), "ignorable_emails"@) is None,
        r.minimum_coverage is None ==> lookup(encoded_doc(r), "minimum_coverage"@) is None,
        r.standard_notice is None ==> lookup(encoded_doc(r), "standard_notice"@) is None,
        r.language is None ==> lookup(encoded_doc(r), "language"@) is None,
{
    lemma_schema_slots();
    if r.homepage_url is None {
        lemma_enc_lookup_none(r, "homepage_url"@);
    }
    if r.notes is None {
        lemma_enc_lookup_none(r, "notes"@);
    }
    if !r.is_deprecated {
        lemma_enc_lookup_none(r, "is_deprecated"@);
    }
    if r.spdx_license_key is None {
        lemma_enc_lookup_none(r, "spdx_license_key"@);
    }
    if r.text_urls.len() == 0 {
        lemma_enc_lookup_none(r, "text_urls"@);
    }
    if r.osi_url is None {
        lemma_enc_lookup_none(r, "osi_url"@);
    }
    if r.osi_license_key is None {
        lemma_enc_lookup_none(r, "osi_license_key"@);
    }
    if r.faq_url is None {
        lemma_enc_lookup_none(r, "faq_url"@);
    }
    if r.other_urls.len() == 0 {
        lemma_enc_lookup_none(r, "other_urls"@);
    }
    if !r.is_exception {
        lemma_enc_lookup_none(r, "is_exception"@);
    }
    if r.other_spdx_license_keys.len() == 0 {
        lemma_enc_lookup_none(r, "other_spdx_license_keys"@);
    }
    if r.ignorable_copyrights.len() == 0 {
        lemma_enc_lookup_none(r, "ignorable_copyrights"@);
    }
    if r.ignorable_holders.len() == 0 {
        lemma_enc_lookup_none(r, "ignorable_holders"@);
    }
    if r.ignorable_authors.len() == 0 {
        lemma_enc_lookup_none(r, "ignorable_authors"@);
    }
    if r.ignorable_urls.len() == 0 {
        lemma_enc_lookup_none(r, "ignorable_urls"@);
    }
    if r.ignorable_emails.len() == 0 {
        lemma_enc_lookup_none(r, "ignorable_emails"@);
    }
    if r.minimum_coverage is None {
        lemma_enc_lookup_none(r, "minimum_coverage"@);
    }
    if r.standard_notice is None {
        lemma_enc_lookup_none(r, "standard_notice"@);
    }
    if r.language is None {
        lemma_enc_lookup_none(r, "language"@);
    }
}


/// Round trip: a record obtained by decoding a document, when encoded
/// again, yields a document that decodes to the very same record,
/// content-equal field by field.
#[verifier::rlimit(100)]
pub proof fn lemma_round_trip(d: Seq<(Seq<char>, YamlVal)>, r: RecordModel)
    requires
        decode_doc_spec(d) == Ok::<RecordModel, MalformedDocument>(r),
    ensures
        decode_doc_spec(encoded_doc(r)) == Ok::<RecordModel, MalformedDocument>(r),
{
    lemma_schema_slots();
    assert(first_err(d) is None);
    assert(missing_err(d) is None);
    assert(r == record_of(d));
    lemma_first_err_none_inv(d);
    if r.minimum_coverage is Some {
        lemma_lookup_ok(d, "minimum_coverage"@);
    }
    let e = encoded_doc(r);
    lemma_enc_prefix_char(r, 24);
    lemma_encoded_doc_wf(r);
    lemma_category_labels_symmetric(r.category);
    assert forall|i: int| 0 <= i < e.len() implies pair_err(e[i].0, e[i].1) is None by {
        let s = slot_of(e[i].0);
        assert(enc_at(r, s) == Some(e[i]));
    }
    lemma_first_err_none(e);
    lemma_enc_lookup(r, 0);
    lemma_enc_lookup(r, 1);
    lemma_enc_lookup(r, 2);
    lemma_enc_lookup(r, 3);
    lemma_enc_lookup(r, 4);
    assert(missing_err(e) is None);
    assert(record_of(e).key == r.key);
    assert(record_of(e).short_name == r.short_name);
    assert(record_of(e).name == r.name);
    assert(record_of(e).category == r.category);
    assert(record_of(e).owner == r.owner);
    if r.homepage_url is Some {
        lemma_enc_lookup(r, 5);
    } else {
        lemma_enc_lookup_none(r, "homepage_url"@);
    }
    assert(record_of(e).homepage_url == r.homepage_url);
    if r.notes is Some {
        lemma_enc_lookup(r, 6);
    } else {
        lemma_enc_lookup_none(r, "notes"@);
    }
    assert(record_of(e).notes == r.notes);
    if r.is_deprecated {
        lemma_enc_lookup(r, 7);
    } else {
        lemma_enc_lookup_none(r, "is_deprecated"@);
    }
    assert(record_of(e).is_deprecated == r.is_deprecated);
    if r.spdx_license_key is Some {
        lemma_enc_lookup(r, 8);
    } else {
        lemma_enc_lookup_none(r, "spdx_license_key"@);
    }
    assert(record_of(e).spdx_license_key == r.spdx_license_key);
    if r.text_urls.len() > 0 {
        lemma_enc_lookup(r, 9);
    } else {
        lemma_enc_lookup_none(r, "text_urls"@);
        assert(r.text_urls =~= Seq::empty());
    }
    assert(record_of(e).text_urls == r.text_urls);
    if r.osi_url is Some {
        lemma_enc_lookup(r, 10);
    } else {
        lemma_enc_lookup_none(r, "osi_url"@);
    }
    assert(record_of(e).osi_url == r.osi_url);
    if r.osi_license_key is Some {
        lemma_enc_lookup(r, 11);
    } else {
        lemma_enc_lookup_none(r, "osi_license_key"@);
    }
    assert(record_of(e).osi_license_key == r.osi_license_key);
    if r.faq_url is Some {
        lemma_enc_lookup(r, 12);
    } else {
        lemma_enc_lookup_none(r, "faq_url"@);
    }
    assert(record_of(e).faq_url == r.faq_url);
    if r.other_urls.len() > 0 {
        lemma_enc_lookup(r, 13);
    } else {
        lemma_enc_lookup_none(r, "other_urls"@);
        assert(r.other_urls =~= Seq::empty());
    }
    assert(record_of(e).other_urls == r.other_urls);
    if r.is_exception {
        lemma_enc_lookup(r, 14);
    } else {
        lemma_enc_lookup_none(r, "is_exception"@);
    }
    assert(record_of(e).is_exception == r.is_exception);
    if r.other_spdx_license_keys.len() > 0 {
        lemma_enc_lookup(r, 15);
    } else {
        lemma_enc_lookup_none(r, "other_spdx_license_keys"@);
        assert(r.other_spdx_license_keys =~= Seq::empty());
    }
    assert(record_of(e).other_spdx_license_keys == r.other_spdx_license_keys);
    if r.ignorable_copyrights.len() > 0 {
        lemma_enc_lookup(r, 16);
    } else {
        lemma_enc_lookup_none(r, "ignorable_copyrights"@);
        assert(r.ignorable_copyrights =~= Seq::empty());
    }
    assert(record_of(e).ignorable_copyrights == r.ignorable_copyrights);
    if r.ignorable_holders.len() > 0 {
        lemma_enc_lookup(r, 17);
    } else {
        lemma_enc_lookup_none(r, "ignorable_holders"@);
        assert(r.ignorable_holders =~= Seq::empty());
    }
    assert(record_of(e).ignorable_holders == r.ignorable_holders);
    if r.ignorable_authors.len() > 0 {
        lemma_enc_lookup(r, 18);
    } else {
        lemma_enc_lookup_none(r, "ignorable_authors"@);
        assert(r.ignorable_authors =~= Seq::empty());
    }
    assert(record_of(e).ignorable_authors == r.ignorable_authors);
    if r.ignorable_urls.len() > 0 {
        lemma_enc_lookup(r, 19);
    } else {
        lemma_enc_lookup_none(r, "ignorable_urls"@);
        assert(r.ignorable_urls =~= Seq::empty());
    }
    assert(record_of(e).ignorable_urls == r.ignorable_urls);
    if r.ignorable_emails.len() > 0 {
        lemma_enc_lookup(r, 20);
    } else {
        lemma_enc_lookup_none(r, "ignorable_emails"@);
        assert(r.ignorable_emails =~= Seq::empty());
    }
    assert(record_of(e).ignorable_emails == r.ignorable_emails);
    if r.minimum_coverage is Some {
        lemma_enc_lookup(r, 21);
    } else {
        lemma_enc_lookup_none(r, "minimum_coverage"@);
    }
    assert(record_of(e).minimum_coverage == r.minimum_coverage);
    if r.standard_notice is Some {
        lemma_enc_lookup(r, 22);
    } else {
        lemma_enc_lookup_none(r, "standard_notice"@);
    }
    assert(record_of(e).standard_notice == r.standard_notice);
    if r.language is Some {
        lemma_enc_lookup(r, 23);
    } else {
        lemma_enc_lookup_none(r, "language"@);
    }
    assert(record_of(e).language == r.language);
    assert(record_of(e).text == r.text);
    assert(record_of(e) == r);
}

/// Round trip at the text level: where a text decodes to a record, any
/// text carrying that record's encoded document decodes to the very same
/// record.
pub proof fn lemma_text_round_trip(t: Seq<char>, r: RecordModel, t2: Seq<char>)
    requires
        decode_text_spec(t) == Ok::<RecordModel, MalformedDocument>(r),
        yaml_doc_of(t2) == Some(encoded_doc(r)),
    ensures
        decode_text_spec(t2) == Ok::<RecordModel, MalformedDocument>(r),
{
    lemma_round_trip(yaml_doc_of(t).unwrap(), r);
}


} // verus!
