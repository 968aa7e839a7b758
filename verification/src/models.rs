//! The license record entity, its category enumeration, and the error
//! taxonomy of the codec and the importer.

use vstd::prelude::*;

verus! {

broadcast use vstd::string::group_string_axioms;

/// The closed set of license categories.
///
/// Each variant has an exact external label, which may differ from the
/// variant's own spelling; see [`category_label`].
#[derive(Clone, Copy, Debug, PartialEq, Eq, Structural)]
pub enum Category {
    Copyleft,
    CopyleftLimited,
    PatentLicense,
    Permissive,
    PublicDomain,
    Commercial,
    ProprietaryFree,
    FreeRestricted,
    SourceAvailable,
    UnstatedLicense,
}

/// The external label of a category, exactly as it stands in a metadata
/// document.
pub open spec fn category_label(c: Category) -> Seq<char> {
    match c {
        Category::Copyleft => "Copyleft"@,
        Category::CopyleftLimited => "Copyleft Limited"@,
        Category::PatentLicense => "Patent License"@,
        Category::Permissive => "Permissive"@,
        Category::PublicDomain => "Public Domain"@,
        Category::Commercial => "Commercial"@,
        Category::ProprietaryFree => "Proprietary Free"@,
        Category::FreeRestricted => "Free Restricted"@,
        Category::SourceAvailable => "Source-available"@,
        Category::UnstatedLicense => "Unstated License"@,
    }
}

/// The category whose external label is `s`, if any: decoding matches the
/// label exactly, with no normalisation.
pub open spec fn category_of_label(s: Seq<char>) -> Option<Category> {
    if s == category_label(Category::Copyleft) {
        Some(Category::Copyleft)
    } else if s == category_label(Category::CopyleftLimited) {
        Some(Category::CopyleftLimited)
    } else if s == category_label(Category::PatentLicense) {
        Some(Category::PatentLicense)
    } else if s == category_label(Category::Permissive) {
        Some(Category::Permissive)
    } else if s == category_label(Category::PublicDomain) {
        Some(Category::PublicDomain)
    } else if s == category_label(Category::Commercial) {
        Some(Category::Commercial)
    } else if s == category_label(Category::ProprietaryFree) {
        Some(Category::ProprietaryFree)
    } else if s == category_label(Category::FreeRestricted) {
        Some(Category::FreeRestricted)
    } else if s == category_label(Category::SourceAvailable) {
        Some(Category::SourceAvailable)
    } else if s == category_label(Category::UnstatedLicense) {
        Some(Category::UnstatedLicense)
    } else {
        None
    }
}

/// Decoding a label and re-encoding the result gives the label back, and
/// encoding any category yields a label that decodes to it.
pub proof fn lemma_category_labels_symmetric(c: Category)
    ensures
        category_of_label(category_label(c)) == Some(c),
{
    reveal_strlit("Copyleft");
    reveal_strlit("Copyleft Limited");
    reveal_strlit("Patent License");
    reveal_strlit("Permissive");
    reveal_strlit("Public Domain");
    reveal_strlit("Commercial");
    reveal_strlit("Proprietary Free");
    reveal_strlit("Free Restricted");
    reveal_strlit("Source-available");
    reveal_strlit("Unstated License");
    assert("Copyleft"@.len() == 8);
    assert("Copyleft Limited"@.len() == 16);
    assert("Patent License"@.len() == 14);
    assert("Permissive"@.len() == 10);
    assert("Public Domain"@.len() == 13);
    assert("Commercial"@.len() == 10);
    assert("Proprietary Free"@.len() == 16);
    assert("Free Restricted"@.len() == 15);
    assert("Source-available"@.len() == 16);
    assert("Unstated License"@.len() == 16);
    assert("Permissive"@[0] != "Commercial"@[0]);
    assert("Copyleft Limited"@[0] != "Proprietary Free"@[0]);
    assert("Copyleft Limited"@[0] != "Source-available"@[0]);
    assert("Copyleft Limited"@[0] != "Unstated License"@[0]);
    assert("Proprietary Free"@[0] != "Source-available"@[0]);
    assert("Proprietary Free"@[0] != "Unstated License"@[0]);
    assert("Source-available"@[0] != "Unstated License"@[0]);
}

/// The mathematical value of one license record: every string as a sequence
/// of characters, every list as a sequence, the metadata fields in the order
/// of the schema. `text` holds the companion license text; it is never part
/// of the encoded metadata document.
pub ghost struct RecordModel {
    pub key: Seq<char>,
    pub short_name: Seq<char>,
    pub name: Seq<char>,
    pub category: Category,
    pub owner: Seq<char>,
    pub homepage_url: Option<Seq<char>>,
    pub notes: Option<Seq<char>>,
    pub is_deprecated: bool,
    pub spdx_license_key: Option<Seq<char>>,
    pub text_urls: Seq<Seq<char>>,
    pub osi_url: Option<Seq<char>>,
    pub osi_license_key: Option<Seq<char>>,
    pub faq_url: Option<Seq<char>>,
    pub other_urls: Seq<Seq<char>>,
    pub is_exception: bool,
    pub other_spdx_license_keys: Seq<Seq<char>>,
    pub ignorable_copyrights: Seq<Seq<char>>,
    pub ignorable_holders: Seq<Seq<char>>,
    pub ignorable_authors: Seq<Seq<char>>,
    pub ignorable_urls: Seq<Seq<char>>,
    pub ignorable_emails: Seq<Seq<char>>,
    pub minimum_coverage: Option<int>,
    pub standard_notice: Option<Seq<char>>,
    pub language: Option<Seq<char>>,
    pub text: Seq<char>,
}

/// One license's metadata plus its full text.
///
/// A record is built by decoding a metadata document; `text` is backfilled
/// from the companion file afterwards and is excluded from the encoded
/// representation entirely.
#[derive(Debug, Clone)]
pub struct ScancodeLicense {
    /// Mandatory unique key: lower case ASCII characters, digits, underscore
    /// and dots.
    pub key: String,
    /// Commonly used short name, often abbreviated.
    pub short_name: String,
    /// Full name.
    pub name: String,
    /// Permissive, Copyleft, etc.
    pub category: Category,
    pub owner: String,
    pub homepage_url: Option<String>,
    pub notes: Option<String>,
    /// Stored as the string `yes` when true, omitted when false.
    pub is_deprecated: bool,
    /// SPDX key for SPDX licenses.
    pub spdx_license_key: Option<String>,
    pub text_urls: Vec<String>,
    pub osi_url: Option<String>,
    pub osi_license_key: Option<String>,
    pub faq_url: Option<String>,
    pub other_urls: Vec<String>,
    /// Stored as the string `yes` when true, omitted when false.
    pub is_exception: bool,
    pub other_spdx_license_keys: Vec<String>,
    pub ignorable_copyrights: Vec<String>,
    pub ignorable_holders: Vec<String>,
    pub ignorable_authors: Vec<String>,
    pub ignorable_urls: Vec<String>,
    pub ignorable_emails: Vec<String>,
    pub minimum_coverage: Option<i32>,
    pub standard_notice: Option<String>,
    pub language: Option<String>,
    /// The full license text from the companion file; empty when that file
    /// is absent or unreadable.
    pub text: String,
}

impl View for ScancodeLicense {
    type V = RecordModel;

    open spec fn view(&self) -> RecordModel {
        RecordModel {
            key: self.key@,
            short_name: self.short_name@,
            name: self.name@,
            category: self.category,
            owner: self.owner@,
            homepage_url: self.homepage_url.deep_view(),
            notes: self.notes.deep_view(),
            is_deprecated: self.is_deprecated,
            spdx_license_key: self.spdx_license_key.deep_view(),
            text_urls: self.text_urls.deep_view(),
            osi_url: self.osi_url.deep_view(),
            osi_license_key: self.osi_license_key.deep_view(),
            faq_url: self.faq_url.deep_view(),
            other_urls: self.other_urls.deep_view(),
            is_exception: self.is_exception,
            other_spdx_license_keys: self.other_spdx_license_keys.deep_view(),
            ignorable_copyrights: self.ignorable_copyrights.deep_view(),
            ignorable_holders: self.ignorable_holders.deep_view(),
            ignorable_authors: self.ignorable_authors.deep_view(),
            ignorable_urls: self.ignorable_urls.deep_view(),
            ignorable_emails: self.ignorable_emails.deep_view(),
            minimum_coverage: match self.minimum_coverage {
                Some(v) => Some(v as int),
                None => None,
            },
            standard_notice: self.standard_notice.deep_view(),
            language: self.language.deep_view(),
            text: self.text@,
        }
    }
}

/// String equality, decided by the characters alone.
pub fn str_eq(a: &str, b: &str) -> (r: bool)
    ensures
        r == (a@ == b@),
{
    let x = a.to_owned();
    let y = b.to_owned();
    x == y
}

/// Equality of two optional strings by their character sequences.
pub fn opt_str_eq(a: &Option<String>, b: &Option<String>) -> (r: bool)
    ensures
        r == (a.deep_view() == b.deep_view()),
{
    match (a, b) {
        (None, None) => true,
        (Some(x), Some(y)) => str_eq(x.as_str(), y.as_str()),
        _ => false,
    }
}

/// Equality of two string lists, element by element.
pub fn str_vec_eq(a: &Vec<String>, b: &Vec<String>) -> (r: bool)
    ensures
        r == (a.deep_view() == b.deep_view()),
{
    if a.len() != b.len() {
        assert(a.deep_view().len() != b.deep_view().len());
        return false;
    }
    let mut i: usize = 0;
    while i < a.len()
        invariant
            0 <= i <= a.len(),
            a.len() == b.len(),
            forall|j: int| 0 <= j < i ==> a.deep_view()[j] == b.deep_view()[j],
        decreases a.len() - i,
    {
        if !str_eq(a[i].as_str(), b[i].as_str()) {
            assert(a.deep_view()[i as int] != b.deep_view()[i as int]);
            return false;
        }
        i = i + 1;
    }
    proof {
        assert(a.deep_view() =~= b.deep_view());
    }
    true
}

impl PartialEq for ScancodeLicense {
    /// Content equality: field by field, on the characters of each string.
    fn eq(&self, other: &Self) -> (r: bool) {
        let r = str_eq(self.key.as_str(), other.key.as_str())
            && str_eq(self.short_name.as_str(), other.short_name.as_str())
            && str_eq(self.name.as_str(), other.name.as_str())
            && self.category == other.category
            && str_eq(self.owner.as_str(), other.owner.as_str())
            && opt_str_eq(&self.homepage_url, &other.homepage_url)
            && opt_str_eq(&self.notes, &other.notes)
            && self.is_deprecated == other.is_deprecated
            && opt_str_eq(&self.spdx_license_key, &other.spdx_license_key)
            && str_vec_eq(&self.text_urls, &other.text_urls)
            && opt_str_eq(&self.osi_url, &other.osi_url)
            && opt_str_eq(&self.osi_license_key, &other.osi_license_key)
            && opt_str_eq(&self.faq_url, &other.faq_url)
            && str_vec_eq(&self.other_urls, &other.other_urls)
            && self.is_exception == other.is_exception
            && str_vec_eq(&self.other_spdx_license_keys, &other.other_spdx_license_keys)
            && str_vec_eq(&self.ignorable_copyrights, &other.ignorable_copyrights)
            && str_vec_eq(&self.ignorable_holders, &other.ignorable_holders)
            && str_vec_eq(&self.ignorable_authors, &other.ignorable_authors)
            && str_vec_eq(&self.ignorable_urls, &other.ignorable_urls)
            && str_vec_eq(&self.ignorable_emails, &other.ignorable_emails)
            && (match (self.minimum_coverage, other.minimum_coverage) {
                (None, None) => true,
                (Some(x), Some(y)) => x == y,
                _ => false,
            })
            && opt_str_eq(&self.standard_notice, &other.standard_notice)
            && opt_str_eq(&self.language, &other.language)
            && str_eq(self.text.as_str(), other.text.as_str());
        proof {
            if r {
                assert(self@ == other@);
            } else {
                assert(self@ != other@);
            }
        }
        r
    }
}

impl vstd::std_specs::cmp::PartialEqSpecImpl for ScancodeLicense {
    open spec fn obeys_eq_spec() -> bool {
        true
    }

    open spec fn eq_spec(&self, other: &Self) -> bool {
        self@ == other@
    }
}

/// Why a metadata document could not be decoded into a record.
#[derive(Clone, Copy, Debug, PartialEq, Eq, Structural)]
pub enum MalformedDocument {
    /// Syntactically invalid structured-text input, or input whose top level
    /// is not a mapping with string keys.
    Syntax,
    /// A required field of the schema is absent.
    MissingMetadataField,
    /// A field whose name is not in the schema: the schema is closed, and an
    /// unknown field is an error, never silently dropped.
    UnknownField,
    /// A field whose value cannot be coerced to its declared type.
    TypeMismatch,
    /// A `category` value that matches none of the fixed labels exactly.
    InvalidEnumLabel,
}

/// The mathematical value of an import error.
pub ghost enum ScancodeErrorModel {
    RecordInvalid { path: Seq<char>, cause: MalformedDocument },
    DirectoryUnreadable { path: Seq<char>, cause: Seq<char> },
    RemoteFetchFailed { url: Seq<char>, cause: Seq<char> },
}

/// Why an import run failed as a whole. Every variant carries the
/// originating file path or URL, so the failure is actionable.
#[derive(Debug, Clone)]
pub enum ScancodeError {
    /// One metadata document failed to decode; the whole import stops there.
    RecordInvalid { path: String, cause: MalformedDocument },
    /// The import root could not be listed.
    DirectoryUnreadable { path: String, cause: String },
    /// The repository clone or transport failed before any decoding began.
    RemoteFetchFailed { url: String, cause: String },
}

impl View for ScancodeError {
    type V = ScancodeErrorModel;

    open spec fn view(&self) -> ScancodeErrorModel {
        match self {
            ScancodeError::RecordInvalid { path, cause } => ScancodeErrorModel::RecordInvalid {
                path: path@,
                cause: *cause,
            },
            ScancodeError::DirectoryUnreadable { path, cause } => ScancodeErrorModel::DirectoryUnreadable {
                path: path@,
                cause: cause@,
            },
            ScancodeError::RemoteFetchFailed { url, cause } => ScancodeErrorModel::RemoteFetchFailed {
                url: url@,
                cause: cause@,
            },
        }
    }
}

} // verus!
