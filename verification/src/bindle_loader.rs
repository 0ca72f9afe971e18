//! Model metadata as stored next to a model, and the choice of the parcels
//! of a bindle invoice that hold a model and its metadata.

use vstd::prelude::*;
use crate::text::str_eq;

verus! {

/// Description of a model as found in its metadata document.
#[derive(Clone, Debug)]
pub struct ModelMetadata {
    /// Model name (optional)
    pub model_name: Option<String>,
    /// graph encoding, by its name in the metadata document (such as "ONNX")
    pub graph_encoding: String,
    /// execution target, by its name in the metadata document (such as "CPU")
    pub execution_target: String,
    /// tensor type
    pub tensor_type: String,
    /// tensor dimensions in (optional)
    pub tensor_dimensions_in: Option<Vec<u32>>,
    /// tensor dimensions out (optional)
    pub tensor_dimensions_out: Option<Vec<u32>>,
}

/// Errors of metadata handling.
#[derive(Debug)]
pub enum Error {
    InvalidParameter(String),
}

/// Loads models and their metadata from a bindle server.
pub struct BindleLoader {}

/// Errors of loading a model from a bindle server.
#[derive(Debug)]
pub enum BindleError {
    NoBindleUrlDefinedError,
    BindleUrlInvalidError,
    BindleInvoiceNotFoundError(String),
    BindleParcelNotFoundError(String),
    BindleParcelNotFetchedError(String),
    BindleNoParcelOfGroupModelError,
    BindleNoParcelOfGroupMetadataError,
    BindleParsingMetadataError(String),
}

/// A parcel of a bundle invoice, as far as the loader reads it: its name,
/// the digest under which it is fetched, and the groups it is a member of
/// (`None` where the invoice gives no membership).
#[derive(Clone, Debug)]
pub struct Parcel {
    pub name: String,
    pub sha256: String,
    pub member_of: Option<Vec<String>>,
}

/// Whether a parcel is a member of `group`.
pub open spec fn is_member_of(p: Parcel, group: Seq<char>) -> bool {
    match p.member_of {
        Some(groups) => exists|j: int| 0 <= j < groups@.len() && #[trigger] groups@[j]@ == group,
        None => false,
    }
}

/// The position of the first parcel that is a member of `group`.
pub open spec fn first_member_index(parcels: Seq<Parcel>, group: Seq<char>) -> Option<int> {
    if exists|i: int| 0 <= i < parcels.len() && is_member_of(#[trigger] parcels[i], group) {
        Some(
            choose|i: int|
                0 <= i < parcels.len() && is_member_of(#[trigger] parcels[i], group) && forall|k: int|
                    0 <= k < i ==> !is_member_of(#[trigger] parcels[k], group),
        )
    } else {
        None
    }
}

/// A result of loading from a bindle server.
pub type BindleResult<T> = Result<T, BindleError>;

fn in_group(groups: &Vec<String>, group: &str) -> (r: bool)
    ensures
        r == exists|j: int| 0 <= j < groups@.len() && #[trigger] groups@[j]@ == group@,
{
    let n = groups.len();
    let mut j: usize = 0;
    while j < n
        invariant
            n == groups@.len(),
            j <= n,
            forall|k: int| 0 <= k < j ==> #[trigger] groups@[k]@ != group@,
        decreases n - j,
    {
        if str_eq(groups[j].as_str(), group) {
            return true;
        }
        j = j + 1;
    }
    false
}

fn parcel_in_group(p: &Parcel, group: &str) -> (r: bool)
    ensures
        r == is_member_of(*p, group@),
{
    match &p.member_of {
        Some(groups) => in_group(groups, group),
        None => false,
    }
}

impl BindleLoader {
    /// The first parcel that is a member of `group`.
    pub fn get_first_member_of<'a>(parcels: &'a [Parcel], group: &'a str) -> (r: BindleResult<&'a Parcel>)
        ensures
            match first_member_index(parcels@, group@) {
                Some(i) => r matches Ok(p) && *p == parcels@[i],
                None => r matches Err(BindleError::BindleNoParcelOfGroupModelError),
            },
    {
        let n = parcels.len();
        let mut i: usize = 0;
        while i < n
            invariant
                n == parcels@.len(),
                i <= n,
                forall|k: int| 0 <= k < i ==> !is_member_of(#[trigger] parcels@[k], group@),
            decreases n - i,
        {
            if parcel_in_group(&parcels[i], group) {
                proof {
                    let w = first_member_index(parcels@, group@);
                    assert(0 <= i < parcels@.len() && is_member_of(parcels@[i as int], group@));
                    let c = choose|c: int|
                        0 <= c < parcels@.len() && is_member_of(#[trigger] parcels@[c], group@)
                            && forall|k: int| 0 <= k < c ==> !is_member_of(#[trigger] parcels@[k], group@);
                    assert(w == Some(c));
                    if c < i {
                    } else if c > i {
                        assert(!is_member_of(parcels@[i as int], group@));
                    }
                }
                return Ok(&parcels[i]);
            }
            i = i + 1;
        }
        Err(BindleError::BindleNoParcelOfGroupModelError)
    }

    /// Chooses the parcels that hold a model and its metadata: the first
    /// member of the group "model" and the first member of the group
    /// "metadata", handed back by position.
    pub fn select_parcels(parcels: &Option<Vec<Parcel>>, bindle_url: &str) -> (r: BindleResult<(usize, usize)>)
        ensures
            match *parcels {
                None => (r matches Err(BindleError::BindleParcelNotFoundError(u)) && u@ == bindle_url@),
                Some(ps) => match first_member_index(ps@, "model"@) {
                    None => r matches Err(BindleError::BindleNoParcelOfGroupModelError),
                    Some(m) => match first_member_index(ps@, "metadata"@) {
                        None => r matches Err(BindleError::BindleNoParcelOfGroupMetadataError),
                        Some(d) => r matches Ok((mi, di)) && mi == m && di == d,
                    },
                },
            },
    {
        let ps = match parcels {
            Some(ps) => ps,
            None => {
                return Err(BindleError::BindleParcelNotFoundError(String::from_str(bindle_url)));
            },
        };
        let model = match Self::first_member_position(ps.as_slice(), "model") {
            Some(i) => i,
            None => {
                return Err(BindleError::BindleNoParcelOfGroupModelError);
            },
        };
        let metadata = match Self::first_member_position(ps.as_slice(), "metadata") {
            Some(i) => i,
            None => {
                return Err(BindleError::BindleNoParcelOfGroupMetadataError);
            },
        };
        Ok((model, metadata))
    }

    fn first_member_position(parcels: &[Parcel], group: &str) -> (r: Option<usize>)
        ensures
            match first_member_index(parcels@, group@) {
                Some(i) => (r matches Some(k) && k as int == i),
                None => r is None,
            },
    {
        let n = parcels.len();
        let mut i: usize = 0;
        while i < n
            invariant
                n == parcels@.len(),
                i <= n,
                forall|k: int| 0 <= k < i ==> !is_member_of(#[trigger] parcels@[k], group@),
            decreases n - i,
        {
            if parcel_in_group(&parcels[i], group) {
                proof {
                    let c = choose|c: int|
                        0 <= c < parcels@.len() && is_member_of(#[trigger] parcels@[c], group@)
                            && forall|k: int| 0 <= k < c ==> !is_member_of(#[trigger] parcels@[k], group@);
                    assert(0 <= i < parcels@.len() && is_member_of(parcels@[i as int], group@));
                    if c > i {
                        assert(!is_member_of(parcels@[i as int], group@));
                    }
                }
                return Some(i);
            }
            i = i + 1;
        }
        None
    }
}

} // verus!
