//! The database importer: which directory entries are license records, how
//! a record's companion text file is named, and the fail-fast assembly of a
//! whole directory's documents into a collection of records.
//!
//! Listing a directory, cloning a repository and reading files are left to
//! the caller; everything here works on plain names and document texts.

use vstd::prelude::*;

use crate::codec::{decode_record, decode_text_spec};
use crate::models::{
    RecordModel, ScancodeError, ScancodeErrorModel, ScancodeLicense, str_eq,
};

verus! {

broadcast use vstd::string::group_string_axioms;

/// A name points at a license metadata document when it carries the
/// metadata extension and is not the reserved index file, which is a
/// manifest and never a license record.
pub open spec fn is_metadata_name(s: Seq<char>) -> bool {
    s.len() > ".yml"@.len() && s.subrange(s.len() - 4, s.len() as int) == ".yml"@ && s
        != "index.yml"@
}

/// The name of a metadata document's companion text file: the same name
/// with the metadata extension replaced by the text extension.
pub open spec fn companion_name_spec(s: Seq<char>) -> Seq<char> {
    s.subrange(0, s.len() - 3) + "LICENSE"@
}

/// Decide whether a directory entry's name points at a license metadata
/// document.
pub fn is_metadata_entry(name: &str) -> (b: bool)
    ensures
        b == is_metadata_name(name@),
{
    proof {
        reveal_strlit(".yml");
        assert(".yml"@.len() == 4);
    }
    let n = name.unicode_len();
    if n <= 4 {
        return false;
    }
    let suffix = name.substring_char(n - 4, n);
    if !str_eq(suffix, ".yml") {
        return false;
    }
    if str_eq(name, "index.yml") {
        return false;
    }
    true
}

/// The companion text file's name for a metadata document's name.
pub fn companion_file_name(name: &str) -> (r: String)
    requires
        is_metadata_name(name@),
    ensures
        r@ == companion_name_spec(name@),
{
    proof {
        reveal_strlit(".yml");
        assert(".yml"@.len() == 4);
    }
    let n = name.unicode_len();
    let stem = name.substring_char(0, n - 3);
    let mut r = stem.to_owned();
    r.append("LICENSE");
    r
}

/// The metadata documents among a directory's entry names, in listing
/// order.
pub open spec fn metadata_names(names: Seq<Seq<char>>) -> Seq<Seq<char>>
    decreases names.len(),
{
    if names.len() == 0 {
        Seq::empty()
    } else {
        metadata_names(names.drop_last()) + (if is_metadata_name(names.last()) {
            seq![names.last()]
        } else {
            Seq::empty()
        })
    }
}

/// Select, in listing order, the entry names that point at license
/// metadata documents, skipping the reserved index file and every name
/// without the metadata extension.
pub fn metadata_entries(names: &Vec<String>) -> (r: Vec<String>)
    ensures
        r.deep_view() == metadata_names(names.deep_view()),
{
    let mut r: Vec<String> = Vec::new();
    let mut i: usize = 0;
    while i < names.len()
        invariant
            0 <= i <= names.len(),
            r.deep_view() == metadata_names(names.deep_view().take(i as int)),
        decreases names.len() - i,
    {
        proof {
            assert(names.deep_view().take(i as int + 1).drop_last() =~= names.deep_view().take(
                i as int,
            ));
            assert(names.deep_view().take(i as int + 1).last() == names.deep_view()[i as int]);
        }
        if is_metadata_entry(names[i].as_str()) {
            r.push(names[i].clone());
            proof {
                assert(r.deep_view() =~= metadata_names(names.deep_view().take(i as int + 1)));
            }
        } else {
            proof {
                assert(r.deep_view() =~= metadata_names(names.deep_view().take(i as int + 1)));
            }
        }
        i = i + 1;
    }
    proof {
        assert(names.deep_view().take(names@.len() as int) =~= names.deep_view());
    }
    r
}

/// The index file is always skipped, even though its name carries the
/// metadata extension.
pub proof fn lemma_index_file_skipped()
    ensures
        "index.yml"@.len() > 4,
        "index.yml"@.subrange("index.yml"@.len() - 4, "index.yml"@.len() as int) == ".yml"@,
        !is_metadata_name("index.yml"@),
{
    reveal_strlit("index.yml");
    reveal_strlit(".yml");
    assert("index.yml"@.len() == 9);
    assert(".yml"@.len() == 4);
    assert("index.yml"@.subrange(5, 9) =~= ".yml"@);
}

/// One license's source documents, as read from the database directory:
/// the metadata document's file name, its raw text, and the companion text
/// file's contents where that file could be read.
pub struct SourceDocument {
    pub name: String,
    pub metadata: String,
    pub text: Option<String>,
}

/// The mathematical value of one license's source documents.
pub ghost struct SourceDocModel {
    pub name: Seq<char>,
    pub metadata: Seq<char>,
    pub text: Option<Seq<char>>,
}

impl View for SourceDocument {
    type V = SourceDocModel;

    open spec fn view(&self) -> SourceDocModel {
        SourceDocModel { name: self.name@, metadata: self.metadata@, text: self.text.deep_view() }
    }
}

/// The mathematical value of a sequence of source documents.
pub open spec fn docs_model(s: Seq<SourceDocument>) -> Seq<SourceDocModel> {
    s.map_values(|d: SourceDocument| d@)
}

/// The mathematical value of a sequence of records.
pub open spec fn recs_model(s: Seq<ScancodeLicense>) -> Seq<RecordModel> {
    s.map_values(|l: ScancodeLicense| l@)
}

/// A record with its text backfilled from the companion file's contents:
/// the contents verbatim, or empty where the file was absent or unreadable
/// - text absence is never an error.
pub open spec fn with_text(r: RecordModel, t: Option<Seq<char>>) -> RecordModel {
    RecordModel {
        text: match t {
            Some(s) => s,
            None => Seq::empty(),
        },
        ..r
    }
}

/// What importing a directory's documents yields: the decoded records in
/// listing order, each with its companion text attached - or, at the first
/// document that fails to decode, that document's error with its file
/// name, and no partial collection.
pub open spec fn import_spec(docs: Seq<SourceDocModel>) -> Result<
    Seq<RecordModel>,
    ScancodeErrorModel,
>
    decreases docs.len(),
{
    if docs.len() == 0 {
        Ok(Seq::empty())
    } else {
        match decode_text_spec(docs[0].metadata) {
            Err(e) => Err(ScancodeErrorModel::RecordInvalid { path: docs[0].name, cause: e }),
            Ok(r) => match import_spec(docs.drop_first()) {
                Err(e) => Err(e),
                Ok(rs) => Ok(seq![with_text(r, docs[0].text)] + rs),
            },
        }
    }
}

/// A run in which every document decodes yields every record, in order.
pub proof fn lemma_import_ok(docs: Seq<SourceDocModel>)
    requires
        forall|j: int| 0 <= j < docs.len() ==> decode_text_spec(docs[j].metadata) is Ok,
    ensures
        import_spec(docs) is Ok,
        import_spec(docs)->Ok_0.len() == docs.len(),
        forall|j: int| 0 <= j < docs.len() ==> import_spec(docs)->Ok_0[j] == with_text(
            decode_text_spec(docs[j].metadata)->Ok_0,
            docs[j].text,
        ),
    decreases docs.len(),
{
    if docs.len() > 0 {
        assert(forall|j: int|
            0 <= j < docs.drop_first().len() ==> docs.drop_first()[j] == docs[j + 1]);
        lemma_import_ok(docs.drop_first());
    }
}

/// The first document that fails to decode decides the import's error.
pub proof fn lemma_import_err_at(docs: Seq<SourceDocModel>, i: int)
    requires
        0 <= i < docs.len(),
        forall|j: int| 0 <= j < i ==> decode_text_spec(docs[j].metadata) is Ok,
        decode_text_spec(docs[i].metadata) is Err,
    ensures
        import_spec(docs) == Err::<Seq<RecordModel>, ScancodeErrorModel>(
            ScancodeErrorModel::RecordInvalid {
                path: docs[i].name,
                cause: decode_text_spec(docs[i].metadata)->Err_0,
            },
        ),
    decreases i,
{
    if i > 0 {
        assert(forall|j: int|
            0 <= j < docs.drop_first().len() ==> docs.drop_first()[j] == docs[j + 1]);
        lemma_import_err_at(docs.drop_first(), i - 1);
    }
}

/// Fail-fast aggregation: one malformed metadata document anywhere in the
/// run fails the whole import; no partial collection is returned.
pub proof fn lemma_fail_fast(docs: Seq<SourceDocModel>, i: int)
    requires
        0 <= i < docs.len(),
        decode_text_spec(docs[i].metadata) is Err,
    ensures
        import_spec(docs) is Err,
    decreases i,
{
    if decode_text_spec(docs[0].metadata) is Ok {
        assert(i > 0);
        assert(forall|j: int|
            0 <= j < docs.drop_first().len() ==> docs.drop_first()[j] == docs[j + 1]);
        lemma_fail_fast(docs.drop_first(), i - 1);
    }
}

/// Missing companion tolerance: a document without a readable companion
/// file still imports, with an empty text.
pub proof fn lemma_missing_companion(docs: Seq<SourceDocModel>, rs: Seq<RecordModel>, i: int)
    requires
        import_spec(docs) == Ok::<Seq<RecordModel>, ScancodeErrorModel>(rs),
        0 <= i < docs.len(),
        docs[i].text is None,
    ensures
        rs.len() == docs.len(),
        rs[i].text == Seq::<char>::empty(),
    decreases i,
{
    let rest = import_spec(docs.drop_first())->Ok_0;
    assert(rs == seq![
        with_text(decode_text_spec(docs[0].metadata)->Ok_0, docs[0].text),
    ] + rest);
    if i > 0 {
        assert(forall|j: int|
            0 <= j < docs.drop_first().len() ==> docs.drop_first()[j] == docs[j + 1]);
        lemma_missing_companion(docs.drop_first(), rest, i - 1);
    } else {
        lemma_missing_companion_len(docs.drop_first(), rest);
    }
}

/// An import that succeeds yields exactly one record per document.
pub proof fn lemma_missing_companion_len(docs: Seq<SourceDocModel>, rs: Seq<RecordModel>)
    requires
        import_spec(docs) == Ok::<Seq<RecordModel>, ScancodeErrorModel>(rs),
    ensures
        rs.len() == docs.len(),
    decreases docs.len(),
{
    if docs.len() > 0 {
        lemma_missing_companion_len(docs.drop_first(), import_spec(docs.drop_first())->Ok_0);
    }
}

/// Assemble the collection of license records from the documents of one
/// database directory, in listing order.
///
/// Each document must decode; the first that does not fails the whole run
/// with its file name and the decode error, and no partial collection is
/// returned. Each record's text is the companion file's contents, or empty
/// where none could be read.
pub fn from_scancode_database(documents: &Vec<SourceDocument>) -> (r: Result<
    Vec<ScancodeLicense>,
    ScancodeError,
>)
    ensures
        (r matches Ok(v) ==> import_spec(docs_model(documents@)) == Ok::<
            Seq<RecordModel>,
            ScancodeErrorModel,
        >(recs_model(v@))),
        (r matches Err(e) ==> import_spec(docs_model(documents@)) == Err::<
            Seq<RecordModel>,
            ScancodeErrorModel,
        >(e@)),
{
    let ghost dm = docs_model(documents@);
    let mut out: Vec<ScancodeLicense> = Vec::new();
    let mut i: usize = 0;
    while i < documents.len()
        invariant
            0 <= i <= documents.len(),
            dm == docs_model(documents@),
            dm.len() == documents.len(),
            out.len() == i,
            forall|j: int| 0 <= j < i ==> decode_text_spec(dm[j].metadata) is Ok,
            forall|j: int| 0 <= j < i ==> out@[j]@ == with_text(
                decode_text_spec(dm[j].metadata)->Ok_0,
                dm[j].text,
            ),
        decreases documents.len() - i,
    {
        let doc = &documents[i];
        proof {
            assert(dm[i as int] == doc@);
        }
        match decode_record(doc.metadata.as_str()) {
            Err(e) => {
                proof {
                    lemma_import_err_at(dm, i as int);
                }
                return Err(ScancodeError::RecordInvalid { path: doc.name.clone(), cause: e });
            },
            Ok(lic) => {
                let mut lic = lic;
                match &doc.text {
                    Some(t) => {
                        lic.text = t.clone();
                    },
                    None => {},
                }
                proof {
                    assert(lic@ == with_text(decode_text_spec(dm[i as int].metadata)->Ok_0, dm[i as int].text));
                }
                out.push(lic);
            },
        }
        i = i + 1;
    }
    proof {
        lemma_import_ok(dm);
        assert(recs_model(out@) =~= import_spec(dm)->Ok_0);
    }
    Ok(out)
}

} // verus!
