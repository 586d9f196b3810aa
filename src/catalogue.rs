//! The whole catalogue: every entry of the document's weapon list, parsed in
//! order, or the first entry that cannot be read.
use vstd::prelude::*;

use crate::json::Json;
use crate::weapons::{parse_weapon, FieldError, Weapon, WeaponView};

verus! {

/// Why the catalogue could not be loaded.
#[derive(Clone, Copy, Debug, PartialEq, Eq, Structural)]
pub enum ParseError {
    /// `data.game.documents.wikiDocuments.documents` is not an array.
    NoCatalogue,
    /// Entry `index` of that array could not be read.
    Entry { index: usize, error: FieldError },
}

/// The list of catalogue entries in a document.
pub open spec fn catalogue_list(root: Json) -> Json {
    root.field("data"@).field("game"@).field("documents"@).field("wikiDocuments"@).field(
        "documents"@,
    )
}

/// The record data of one catalogue entry.
pub open spec fn entry_data(entry: Json) -> Json {
    entry.field("data"@).field("staticDataEntity"@)
}

/// The records of `entries`, in order, or the error of the first entry that
/// cannot be read.
pub open spec fn parse_entries(entries: Seq<Json>) -> Result<Seq<WeaponView>, ParseError>
    decreases entries.len(),
{
    if entries.len() == 0 {
        Ok(Seq::empty())
    } else {
        match parse_entries(entries.drop_last()) {
            Err(e) => Err(e),
            Ok(ws) => match parse_weapon(entry_data(entries.last())) {
                Ok(w) => Ok(ws.push(w)),
                Err(e) => Err(ParseError::Entry { index: (entries.len() - 1) as usize, error: e }),
            },
        }
    }
}

/// The catalogue that a document holds.
pub open spec fn parse_catalogue(root: Json) -> Result<Seq<WeaponView>, ParseError> {
    match catalogue_list(root) {
        Json::Array(entries) => parse_entries(entries@),
        _ => Err(ParseError::NoCatalogue),
    }
}

/// The records of `ws`, as plain values.
pub open spec fn records(ws: Seq<Weapon>) -> Seq<WeaponView> {
    Seq::new(ws.len(), |i: int| ws[i]@)
}

/// Every record of `ws` has its scaling slots labelled in order.
pub open spec fn all_wf(ws: Seq<Weapon>) -> bool {
    forall|i: int| 0 <= i < ws.len() ==> #[trigger] ws[i].wf()
}

/// Reads the whole catalogue of a document. Nothing is returned of a document
/// with an entry that cannot be read: the error names the first such entry.
pub fn load_catalogue(root: &Json) -> (r: Result<Vec<Weapon>, ParseError>)
    ensures
        match r {
            Ok(ws) => parse_catalogue(*root) == Ok::<Seq<WeaponView>, ParseError>(records(ws@))
                && all_wf(ws@),
            Err(e) => parse_catalogue(*root) == Err::<Seq<WeaponView>, ParseError>(e),
        },
{
    let list = root.get("data").get("game").get("documents").get("wikiDocuments").get(
        "documents",
    );
    let entries = match list {
        Json::Array(entries) => entries,
        _ => {
            return Err(ParseError::NoCatalogue);
        },
    };
    let mut ws: Vec<Weapon> = Vec::new();
    let mut i: usize = 0;
    assert(entries@.subrange(0, 0) =~= Seq::<Json>::empty());
    assert(records(ws@) =~= Seq::<WeaponView>::empty());
    while i < entries.len()
        invariant
            i <= entries@.len(),
            parse_catalogue(*root) == parse_entries(entries@),
            parse_entries(entries@.subrange(0, i as int)) == Ok::<Seq<WeaponView>, ParseError>(
                records(ws@),
            ),
            all_wf(ws@),
        decreases entries@.len() - i,
    {
        assert(entries@.subrange(0, i + 1).drop_last() =~= entries@.subrange(0, i as int));
        assert(entries@.subrange(0, i + 1).last() == entries@[i as int]);
        let data = entries[i].get("data").get("staticDataEntity");
        match Weapon::new(data) {
            Ok(w) => {
                let ghost before = ws@;
                ws.push(w);
                assert(records(ws@) =~= records(before).push(w@));
            },
            Err(e) => {
                proof {
                    lemma_entries_error_stays(
                        entries@,
                        i as int + 1,
                        ParseError::Entry { index: i, error: e },
                    );
                }
                return Err(ParseError::Entry { index: i, error: e });
            },
        }
        i = i + 1;
    }
    assert(entries@.subrange(0, i as int) =~= entries@);
    Ok(ws)
}

/// Once a prefix of the entries fails, every longer prefix fails the same way.
proof fn lemma_entries_error_stays(entries: Seq<Json>, n: int, e: ParseError)
    requires
        0 < n <= entries.len(),
        parse_entries(entries.subrange(0, n)) == Err::<Seq<WeaponView>, ParseError>(e),
    ensures
        parse_entries(entries) == Err::<Seq<WeaponView>, ParseError>(e),
    decreases entries.len() - n,
{
    if n == entries.len() {
        assert(entries.subrange(0, n) =~= entries);
    } else {
        assert(entries.subrange(0, n + 1).drop_last() =~= entries.subrange(0, n));
        lemma_entries_error_stays(entries, n + 1, e);
    }
}

/// A prefix of entries that all parse gives one record per entry, in order.
proof fn lemma_entries_prefix(entries: Seq<Json>, n: int)
    requires
        0 <= n <= entries.len(),
    ensures
        parse_entries(entries.subrange(0, n)) is Err || (parse_entries(entries.subrange(0, n))
            is Ok && forall|k: int|
            0 <= k < n ==> parse_weapon(#[trigger] entry_data(entries[k])) is Ok),
    decreases n,
{
    if n > 0 {
        let prefix = entries.subrange(0, n);
        assert(prefix.drop_last() =~= entries.subrange(0, n - 1));
        lemma_entries_prefix(entries, n - 1);
    }
}

/// An entry without a string `name` makes the whole catalogue fail: no
/// record comes out, neither of that entry nor of any other.
pub proof fn lemma_missing_name_fails(root: Json, k: int)
    requires
        catalogue_list(root) is Array,
        0 <= k < catalogue_list(root)->Array_0@.len(),
        entry_data(catalogue_list(root)->Array_0@[k]).field("name"@).text() is None,
    ensures
        parse_catalogue(root) is Err,
{
    let entries = catalogue_list(root)->Array_0@;
    assert(parse_weapon(entry_data(entries[k])) is Err);
    lemma_entries_prefix(entries, entries.len() as int);
    assert(entries.subrange(0, entries.len() as int) =~= entries);
}

} // verus!
