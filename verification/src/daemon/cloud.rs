//! What a node learns from the cloud that it runs in.
use crate::primary::health::is_success;
use crate::storage::digitalocean::DigitalOceanVolumes;
use crate::text::{same_text, trim, trim_text};
use vstd::prelude::*;
use vstd::string::*;

verus! {

/// The provider whose machines and volumes are known.
pub const DIGITALOCEAN: &'static str = "digitalocean";

/// Where a machine asks who it is.
pub const METADATA_ID_URL: &'static str = "http://169.254.169.254/metadata/v1/id";

/// Where a machine asks in which region it is.
pub const METADATA_REGION_URL: &'static str = "http://169.254.169.254/metadata/v1/region";

/// What the cloud tells of a machine.
#[derive(Debug, PartialEq, Eq)]
pub struct CloudMetadata {
    pub instance_id: Option<String>,
    pub region: Option<String>,
}

/// An answer: its status, and its text where that could be read.
#[derive(Debug, PartialEq, Eq)]
pub struct Answer {
    pub status: u16,
    pub text: Option<String>,
}

/// Whether a provider is the known one.
pub open spec fn is_known(provider: Option<String>) -> bool {
    provider is Some && provider->0@ == DIGITALOCEAN@
}

/// Whether a provider is the known one.
pub fn known_provider(provider: &Option<String>) -> (res: bool)
    ensures
        res == is_known(*provider),
{
    match provider {
        Some(name) => same_text(name.as_str(), DIGITALOCEAN),
        None => false,
    }
}

/// The text of an answer that tells of success, without the space round it.
pub open spec fn told(answer: Option<Answer>) -> Option<Seq<char>> {
    if answer is Some && 200 <= answer->0.status <= 299 && answer->0.text is Some {
        Some(trim(answer->0.text->0@))
    } else {
        None
    }
}

/// A text, where there is one.
pub open spec fn text_view(s: Option<String>) -> Option<Seq<char>> {
    match s {
        Some(t) => Some(t@),
        None => None,
    }
}

fn text_told(answer: &Option<Answer>) -> (res: Option<String>)
    ensures
        text_view(res) == told(*answer),
{
    match answer {
        Some(answer) => match &answer.text {
            Some(text) => if is_success(answer.status) {
                Some(trim_text(text.as_str()))
            } else {
                None
            },
            None => None,
        },
        None => None,
    }
}

/// What the answers to both questions tell. Where the provider is not known,
/// nothing is told.
pub fn detect_cloud_metadata(
    provider: &Option<String>,
    id: &Option<Answer>,
    region: &Option<Answer>,
) -> (res: CloudMetadata)
    ensures
        if is_known(*provider) {
            text_view(res.instance_id) == told(*id) && text_view(res.region) == told(*region)
        } else {
            res.instance_id is None && res.region is None
        },
{
    if known_provider(provider) {
        CloudMetadata { instance_id: text_told(id), region: text_told(region) }
    } else {
        CloudMetadata { instance_id: None, region: None }
    }
}

/// The driver that a provider, a token and a region make; none where any of
/// them is missing, or the provider is not known.
pub open spec fn driver_of(
    provider: Option<String>,
    token: Option<String>,
    region: Option<String>,
) -> Option<DigitalOceanVolumes> {
    if is_known(provider) && token is Some && region is Some {
        Some(DigitalOceanVolumes { token: token->0, region: region->0 })
    } else {
        None
    }
}

/// Build a volume driver from provider config. Returns `None` if any
/// required field is missing.
pub fn build_volume_driver(
    provider: &Option<String>,
    token: &Option<String>,
    region: &Option<String>,
) -> (res: Option<DigitalOceanVolumes>)
    ensures
        res == driver_of(*provider, *token, *region),
{
    match (known_provider(provider), token, region) {
        (true, Some(token), Some(region)) => Some(
            DigitalOceanVolumes::new(token.clone(), region.clone()),
        ),
        _ => None,
    }
}

/// Only answers that tell of success are believed, without the space round them.
pub proof fn only_good_answers_are_believed(status: u16, text: Option<String>)
    ensures
        told(None) is None,
        told(Some(Answer { status, text })) is Some <==> 200 <= status < 300 && text is Some,
        told(Some(Answer { status, text })) matches Some(words) ==> words == trim(text->0@),
{
}

/// There is a driver for volumes where the provider is the known one and both its
/// token and the region are given; it works with those.
pub proof fn drivers_are_made_of_what_is_given(
    provider: Option<String>,
    token: Option<String>,
    region: Option<String>,
)
    ensures
        driver_of(provider, token, region) is Some <==> provider is Some && provider->0@
            == "digitalocean"@ && token is Some && region is Some,
        driver_of(provider, token, region) matches Some(driver) ==> driver.token == token->0
            && driver.region == region->0,
{
}

} // verus!
