//! The facility resolver: case-insensitive substring match of a user query
//! against the catalog's display names, and the listing of published names.

use vstd::prelude::*;
use crate::error::MensarError;
use crate::model::Facility;

verus! {

/// What `str::to_lowercase` returns for the given characters. The result is
/// a function of the characters alone (the Unicode lowercase mapping).
pub uninterp spec fn lower_of(s: Seq<char>) -> Seq<char>;

/// `pat` occurs in `s` as a contiguous subsequence.
pub open spec fn contains_seq(s: Seq<char>, pat: Seq<char>) -> bool {
    exists|i: int|
        0 <= i && i + pat.len() <= s.len() && #[trigger] s.subrange(i, i + pat.len()) == pat
}

/// Relies on `str::to_lowercase`: the lowercase equivalent of the slice,
/// a function of its characters alone.
#[verifier::external_body]
fn fold_case(s: &str) -> (r: String)
    ensures
        r@ == lower_of(s@),
{
    s.to_lowercase()
}

/// Relies on `str::contains` with a `&str` pattern: true exactly when the
/// pattern matches a sub-slice of the string.
#[verifier::external_body]
fn contains_str(s: &str, pat: &str) -> (r: bool)
    ensures
        r == contains_seq(s@, pat@),
{
    s.contains(pat)
}

/// The loose-search rule: a facility matches a query when its case-folded
/// display name contains the case-folded query as a substring.
pub open spec fn facility_matches(f: Facility, query: Seq<char>) -> bool {
    contains_seq(lower_of(f.facility_name@), lower_of(query))
}

/// Resolves `query` to the first matching facility in catalog order, or
/// reports `FacilityNotFound` carrying the query when none matches.
pub fn resolve<'a>(facilities: &'a Vec<Facility>, query: &str) -> (r: Result<
    &'a Facility,
    MensarError,
>)
    ensures
        match r {
            Ok(f) => exists|i: int|
                {
                    &&& 0 <= i < facilities@.len()
                    &&& *f == facilities@[i]
                    &&& facility_matches(facilities@[i], query@)
                    &&& forall|j: int|
                        0 <= j < i ==> !facility_matches(#[trigger] facilities@[j], query@)
                },
            Err(e) => {
                &&& forall|i: int|
                    0 <= i < facilities@.len() ==> !facility_matches(
                        #[trigger] facilities@[i],
                        query@,
                    )
                &&& (e matches MensarError::FacilityNotFound(q) && q@ == query@)
            },
        },
{
    let folded_query = fold_case(query);
    let mut idx: usize = 0;
    while idx < facilities.len()
        invariant
            idx <= facilities@.len(),
            folded_query@ == lower_of(query@),
            forall|j: int| 0 <= j < idx ==> !facility_matches(#[trigger] facilities@[j], query@),
        decreases facilities@.len() - idx,
    {
        let folded_name = fold_case(facilities[idx].facility_name.as_str());
        if contains_str(folded_name.as_str(), folded_query.as_str()) {
            return Ok(&facilities[idx]);
        }
        idx += 1;
    }
    Err(MensarError::FacilityNotFound(String::from_str(query)))
}

/// A facility is publicly listed when its publication type code is 1.
pub open spec fn is_published(f: Facility) -> bool {
    f.publication_type_code == 1
}

/// The display names of the publicly listed facilities, in catalog order.
pub open spec fn spec_published_names(fs: Seq<Facility>) -> Seq<Seq<char>> {
    fs.filter(|f: Facility| is_published(f)).map_values(|f: Facility| f.facility_name@)
}

/// Lists the names of the publicly listed facilities, preserving catalog
/// order and independent of any query.
pub fn list_published(facilities: &Vec<Facility>) -> (r: Vec<String>)
    ensures
        r@.map_values(|s: String| s@) == spec_published_names(facilities@),
{
    let mut out: Vec<String> = Vec::new();
    let mut idx: usize = 0;
    while idx < facilities.len()
        invariant
            idx <= facilities@.len(),
            out@.map_values(|s: String| s@) == spec_published_names(facilities@.take(idx as int)),
        decreases facilities@.len() - idx,
    {
        if facilities[idx].publication_type_code == 1 {
            out.push(facilities[idx].facility_name.clone());
        }
        proof {
            let prefix = facilities@.take(idx as int);
            let next = facilities@[idx as int];
            assert(facilities@.take(idx + 1) == prefix.push(next));
            prefix.lemma_filter_push(next, |f: Facility| is_published(f));
            prefix.filter(|f: Facility| is_published(f)).lemma_push_map_commute(
                |f: Facility| f.facility_name@,
                next,
            );
            assert(out@.map_values(|s: String| s@) =~= spec_published_names(
                facilities@.take(idx + 1),
            ));
        }
        idx += 1;
    }
    proof {
        assert(facilities@.take(facilities@.len() as int) == facilities@);
    }
    out
}

/// The listing text: each published name on a line of its own.
pub open spec fn spec_list_text(fs: Seq<Facility>) -> Seq<char> {
    spec_published_names(fs).fold_left(Seq::<char>::empty(), |acc: Seq<char>, n: Seq<char>| acc + n + "\n"@)
}

/// Renders the listing of published facilities, one name per line.
pub fn list_text(facilities: &Vec<Facility>) -> (r: String)
    ensures
        r@ == spec_list_text(facilities@),
{
    let names = list_published(facilities);
    let mut out = String::new();
    let mut idx: usize = 0;
    while idx < names.len()
        invariant
            idx <= names@.len(),
            names@.map_values(|s: String| s@) == spec_published_names(facilities@),
            out@ == names@.map_values(|s: String| s@).take(idx as int).fold_left(
                Seq::<char>::empty(),
                |acc: Seq<char>, n: Seq<char>| acc + n + "\n"@,
            ),
        decreases names@.len() - idx,
    {
        let ghost views = names@.map_values(|s: String| s@);
        proof {
            assert(views.take(idx + 1).drop_last() == views.take(idx as int));
            assert(views.take(idx + 1).last() == views[idx as int]);
        }
        out.append(names[idx].as_str());
        out.append("\n");
        idx += 1;
    }
    proof {
        let views = names@.map_values(|s: String| s@);
        assert(views.take(views.len() as int) == views);
    }
    out
}

} // verus!
