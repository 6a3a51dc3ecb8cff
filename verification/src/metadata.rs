//! Cloud Run instance and service metadata.

use vstd::prelude::*;
use vstd::string::*;
use crate::error::CloudRunError;
use crate::text::{find_last, last_index_of, lemma_last_index_of, lemma_last_index_of_is};

verus! {

/// The part of `zone` after its last `/` (all of it where there is none).
pub open spec fn last_segment(zone: Seq<char>) -> Seq<char> {
    zone.subrange(last_index_of(zone, '/') + 1, zone.len() as int)
}

/// Whether `c` has the Unicode `Alphabetic` property, as `char::is_alphabetic`
/// reports it.
pub uninterp spec fn is_alphabetic(c: char) -> bool;

/// `char::is_alphabetic` (std): whether `c` has the Unicode `Alphabetic`
/// property. Its result is taken to be `is_alphabetic(c)`, a function of
/// `c` alone; which characters have the property is the Unicode table's and
/// is left unsaid.
#[verifier::external_body]
fn char_is_alphabetic(c: char) -> (r: bool)
    ensures
        r == is_alphabetic(c),
{
    c.is_alphabetic()
}

/// The character after the last `-` of the last segment, where it is the
/// only one there and a non-empty region comes before the `-`.
pub open spec fn zone_suffix_char(zone: Seq<char>) -> Option<char> {
    let last = last_segment(zone);
    let dash = last_index_of(last, '-');
    if dash > 0 && dash + 2 == last.len() {
        Some(last[dash + 1])
    } else {
        None
    }
}

/// The region of a zone value, given whether its one-character suffix (see
/// [`zone_suffix_char`]) is a letter: the last path segment without that
/// `-x` suffix where it is a letter, the whole last segment otherwise, and
/// `None` for an empty last segment.
pub open spec fn region_given(zone: Seq<char>, suffix_is_letter: bool) -> Option<Seq<char>> {
    let last = last_segment(zone);
    if last.len() == 0 {
        None
    } else if zone_suffix_char(zone) is Some && suffix_is_letter {
        Some(last.subrange(0, last_index_of(last, '-')))
    } else {
        Some(last)
    }
}

/// The region of a zone value: the last path segment, without its trailing
/// single-letter zone suffix (`-a`) where it has one after a non-empty
/// region; `None` for an empty last segment.
pub open spec fn region_of_zone(zone: Seq<char>) -> Option<Seq<char>> {
    region_given(
        zone,
        match zone_suffix_char(zone) {
            Some(c) => is_alphabetic(c),
            None => false,
        },
    )
}

/// The last path segment of `zone`.
fn last_segment_of(zone: &str) -> (r: &str)
    ensures
        r@ == last_segment(zone@),
{
    let n = zone.unicode_len();
    proof {
        lemma_last_index_of(zone@, '/');
    }
    let start: usize = match find_last(zone, '/') {
        Some(i) => i + 1,
        None => 0,
    };
    let last = zone.substring_char(start, n);
    assert(last@ =~= last_segment(zone@));
    last
}

/// The one-character suffix of a zone value that may be a zone letter
/// (`a` in `us-central1-a`).
pub fn zone_suffix(zone: &str) -> (r: Option<char>)
    ensures
        r == zone_suffix_char(zone@),
{
    let last = last_segment_of(zone);
    let m = last.unicode_len();
    proof {
        lemma_last_index_of(last@, '-');
    }
    match find_last(last, '-') {
        Some(dash) => {
            if dash > 0 && dash == m - 2 {
                Some(last.get_char(dash + 1))
            } else {
                None
            }
        },
        None => None,
    }
}

/// The region of a zone value, given whether its one-character suffix is a
/// letter.
pub fn region_from_zone_given(zone: &str, suffix_is_letter: bool) -> (r: Option<String>)
    ensures
        match region_given(zone@, suffix_is_letter) {
            Some(region) => r matches Some(s) && s@ == region,
            None => r is None,
        },
{
    let last = last_segment_of(zone);
    let m = last.unicode_len();
    if m == 0 {
        return None;
    }
    proof {
        lemma_last_index_of(last@, '-');
    }
    if suffix_is_letter {
        match find_last(last, '-') {
            Some(dash) => {
                if dash > 0 && dash == m - 2 {
                    let region = last.substring_char(0, dash);
                    return Some(String::from_str(region));
                }
            },
            None => {},
        }
    }
    Some(String::from_str(last))
}

/// Derive the Cloud Run region from a GCE `instance/zone` value.
///
/// The metadata server reports zones like
/// `projects/123456789/zones/us-central1-a`; the region is that value with the
/// leading path stripped and the trailing single-letter zone suffix (`-a`)
/// removed, giving `us-central1`. A value whose final `-` segment is not a
/// single letter, or that has no `-` at all, is returned whole; an empty
/// value yields `None`.
pub fn region_from_zone(zone: &str) -> (r: Option<String>)
    ensures
        match region_of_zone(zone@) {
            Some(region) => r matches Some(s) && s@ == region,
            None => r is None,
        },
{
    let suffix_is_letter = match zone_suffix(zone) {
        Some(c) => char_is_alphabetic(c),
        None => false,
    };
    region_from_zone_given(zone, suffix_is_letter)
}

} // verus!

verus! {

/// A derived region is never empty and never holds a `/`; there is none
/// exactly when the zone ends in `/` or is empty. A value whose last segment
/// has no one-character suffix after a `-` is returned whole.
pub proof fn lemma_region_well_formed(zone: Seq<char>)
    ensures
        region_of_zone(zone) is None <==> last_segment(zone).len() == 0,
        region_of_zone(zone) matches Some(r) ==> r.len() > 0 && forall|i: int|
            0 <= i < r.len() ==> r[i] != '/',
        zone_suffix_char(zone) is None && last_segment(zone).len() > 0 ==> region_of_zone(zone)
            == Some(last_segment(zone)),
{
    lemma_last_index_of(zone, '/');
    let last = last_segment(zone);
    lemma_last_index_of(last, '-');
    assert forall|i: int| 0 <= i < last.len() implies last[i] != '/' by {
        assert(last[i] == zone[last_index_of(zone, '/') + 1 + i]);
    }
}

/// A zone value is some leading path (empty, or ending in `/`) followed by
/// its last segment, which holds no `/`.
pub open spec fn is_path_prefix(prefix: Seq<char>) -> bool {
    prefix.len() == 0 || prefix.last() == '/'
}

proof fn lemma_last_segment_after_prefix(prefix: Seq<char>, seg: Seq<char>)
    requires
        is_path_prefix(prefix),
        forall|i: int| 0 <= i < seg.len() ==> seg[i] != '/',
    ensures
        last_segment(prefix + seg) == seg,
{
    let zone = prefix + seg;
    assert forall|j: int| prefix.len() - 1 < j < zone.len() implies zone[j] != '/' by {
        assert(zone[j] == seg[j - prefix.len()]);
    }
    if prefix.len() > 0 {
        assert(zone[prefix.len() - 1] == prefix.last());
    }
    lemma_last_index_of_is(zone, '/', prefix.len() - 1);
    assert(zone.subrange(prefix.len() as int, zone.len() as int) =~= seg);
}

/// A zone whose last segment is a non-empty region, a `-` and one letter
/// (`projects/1/zones/europe-west1-b`) gives that region (`europe-west1`),
/// however long the region is; with one character that is not a letter
/// (`us-1`) it gives the whole last segment.
pub proof fn lemma_region_strips_single_letter_suffix(
    prefix: Seq<char>,
    region: Seq<char>,
    x: char,
)
    requires
        is_path_prefix(prefix),
        region.len() > 0,
        forall|i: int| 0 <= i < region.len() ==> region[i] != '/',
        x != '/',
        x != '-',
    ensures
        is_alphabetic(x) ==> region_of_zone(prefix + region + seq!['-', x]) == Some(region),
        !is_alphabetic(x) ==> region_of_zone(prefix + region + seq!['-', x]) == Some(
            region + seq!['-', x],
        ),
{
    let seg = region + seq!['-', x];
    assert(prefix + region + seq!['-', x] =~= prefix + seg);
    assert forall|i: int| 0 <= i < seg.len() implies seg[i] != '/' by {
        if i < region.len() {
            assert(seg[i] == region[i]);
        }
    }
    lemma_last_segment_after_prefix(prefix, seg);
    assert(seg[region.len() as int] == '-');
    assert(seg[region.len() as int + 1] == x);
    lemma_last_index_of_is(seg, '-', region.len() as int);
    assert(seg.subrange(0, region.len() as int) =~= region);
}

/// A zone whose last segment is non-empty and holds no `-` (`uscentral1`)
/// gives that whole segment; a zone with an empty last segment (`""`,
/// `zones/`) gives none.
pub proof fn lemma_region_of_segment_without_dash(prefix: Seq<char>, seg: Seq<char>)
    requires
        is_path_prefix(prefix),
        forall|i: int| 0 <= i < seg.len() ==> seg[i] != '/' && seg[i] != '-',
    ensures
        seg.len() > 0 ==> region_of_zone(prefix + seg) == Some(seg),
        seg.len() == 0 ==> region_of_zone(prefix + seg) is None,
{
    lemma_last_segment_after_prefix(prefix, seg);
    lemma_last_index_of_is(seg, '-', -1);
}

/// Instance metadata from the GCE metadata server.
#[derive(Debug, Clone)]
pub struct InstanceMetadata {
    /// Instance ID.
    pub instance_id: Option<String>,
    /// Instance zone.
    pub zone: Option<String>,
    /// Project ID.
    pub project_id: Option<String>,
    /// Project number.
    pub project_number: Option<String>,
    /// Service account email.
    pub service_account: Option<String>,
    /// Instance region.
    pub region: Option<String>,
}

/// Path of the instance ID below the metadata base URL.
pub const INSTANCE_ID_PATH: &'static str = "instance/id";

/// Path of the instance zone below the metadata base URL.
pub const ZONE_PATH: &'static str = "instance/zone";

/// Path of the project ID below the metadata base URL.
pub const PROJECT_ID_PATH: &'static str = "project/project-id";

/// Path of the numeric project ID below the metadata base URL.
pub const PROJECT_NUMBER_PATH: &'static str = "project/numeric-project-id";

/// Path of the default service account's email below the metadata base URL.
pub const SERVICE_ACCOUNT_PATH: &'static str = "instance/service-accounts/default/email";

/// Base URL of the GCE/Cloud Run metadata server.
pub const METADATA_BASE: &'static str = "http://metadata.google.internal/computeMetadata/v1/";

/// The region derived from an optional zone.
pub open spec fn region_of_opt_zone(zone: Option<String>) -> Option<Seq<char>> {
    match zone {
        Some(z) => region_of_zone(z@),
        None => None,
    }
}

impl InstanceMetadata {
    /// Instance metadata from the looked-up fields; the region is derived
    /// from the zone.
    pub fn from_fields(
        instance_id: Option<String>,
        zone: Option<String>,
        project_id: Option<String>,
        project_number: Option<String>,
        service_account: Option<String>,
    ) -> (r: Self)
        ensures
            r.instance_id == instance_id,
            r.zone == zone,
            r.project_id == project_id,
            r.project_number == project_number,
            r.service_account == service_account,
            match region_of_opt_zone(zone) {
                Some(region) => r.region matches Some(s) && s@ == region,
                None => r.region is None,
            },
    {
        let region = match &zone {
            Some(z) => region_from_zone(z.as_str()),
            None => None,
        };
        InstanceMetadata { instance_id, zone, project_id, project_number, service_account, region }
    }
}

/// The URL of a metadata field: the base URL followed by the field's path.
pub fn field_url(base: &str, path: &str) -> (r: String)
    ensures
        r@ == base@ + path@,
{
    String::from_str(base).concat(path)
}

/// The HTTP status is a success (2xx).
pub open spec fn is_success(status: u16) -> bool {
    200 <= status <= 299
}

/// What a metadata server's HTTP status says of a field.
#[derive(Debug, Clone, Copy, PartialEq, Eq, Structural)]
pub enum FieldStatus {
    /// The field is there: its value is the response body.
    Present,
    /// The server reports the field missing (a non-success status).
    Absent,
}

/// Classifies the HTTP status of the lookup of a field: a success status
/// means the field is present; any other status means the server reports it
/// missing, and the field degrades to `None` rather than erroring.
pub fn field_status(status: u16) -> (r: FieldStatus)
    ensures
        r == (if is_success(status) {
            FieldStatus::Present
        } else {
            FieldStatus::Absent
        }),
{
    if 200 <= status && status <= 299 {
        FieldStatus::Present
    } else {
        FieldStatus::Absent
    }
}

/// A field is present exactly on a 2xx answer; every other status (403,
/// 404, 429, 5xx, ...) leaves it absent.
pub proof fn lemma_field_present_only_on_2xx(status: u16)
    ensures
        is_success(status) <==> 200 <= status && status < 300,
{
}

/// The error of a lookup that could not reach the metadata server.
pub fn unreachable_error(path: &str, detail: &str) -> (r: CloudRunError)
    ensures
        r matches CloudRunError::Metadata(m) && m@ == "metadata server unreachable ("@ + path@
            + "): "@ + detail@,
{
    let mut m = String::from_str("metadata server unreachable (");
    m.append(path);
    m.append("): ");
    m.append(detail);
    CloudRunError::Metadata(m)
}

/// The error of a lookup whose response body could not be read.
pub fn unreadable_error(path: &str, detail: &str) -> (r: CloudRunError)
    ensures
        r matches CloudRunError::Metadata(m) && m@ == "failed to read metadata response ("@
            + path@ + "): "@ + detail@,
{
    let mut m = String::from_str("failed to read metadata response (");
    m.append(path);
    m.append("): ");
    m.append(detail);
    CloudRunError::Metadata(m)
}

/// The error of a failure to build the HTTP client.
pub fn client_error(detail: &str) -> (r: CloudRunError)
    ensures
        r matches CloudRunError::Metadata(m) && m@ == "failed to build HTTP client: "@ + detail@,
{
    let mut m = String::from_str("failed to build HTTP client: ");
    m.append(detail);
    CloudRunError::Metadata(m)
}

/// Service metadata for the Cloud Run service.
#[derive(Debug, Clone)]
pub struct ServiceMetadata {
    /// Service name.
    pub name: String,
    /// Revision name.
    pub revision: Option<String>,
    /// Configuration name.
    pub configuration: Option<String>,
    /// Project ID.
    pub project_id: Option<String>,
    /// Region.
    pub region: Option<String>,
    /// Service URL.
    pub url: Option<String>,
}

impl ServiceMetadata {
    /// Service metadata from the values of `K_SERVICE`, `K_REVISION`,
    /// `K_CONFIGURATION`, `GOOGLE_CLOUD_PROJECT`, `GOOGLE_CLOUD_REGION` and
    /// `CLOUD_RUN_URL`; none when the service name is absent (not on Cloud Run).
    pub fn from_values(
        service: Option<String>,
        revision: Option<String>,
        configuration: Option<String>,
        project_id: Option<String>,
        region: Option<String>,
        url: Option<String>,
    ) -> (r: Option<Self>)
        ensures
            r is Some <==> service is Some,
            r matches Some(m) ==> {
                &&& m.name == service->0
                &&& m.revision == revision
                &&& m.configuration == configuration
                &&& m.project_id == project_id
                &&& m.region == region
                &&& m.url == url
            },
    {
        match service {
            Some(name) => Some(ServiceMetadata { name, revision, configuration, project_id, region, url }),
            None => None,
        }
    }
}

} // verus!
