//! Volumes of DigitalOcean: what is asked of its API, and what the answers
//! mean.
use crate::error::StorageError;
use crate::seqs::{first, lemma_is_first};
use crate::storage::CloudVolumeInfo;
use crate::text::{parse_u64, parsed_u64, same_text};
use crate::units::gib;
use vstd::prelude::*;
use vstd::string::*;

verus! {

/// Bytes in a gibibyte.
pub const GIB: u64 = 1_073_741_824;

/// Where volumes are kept.
pub const VOLUMES_URL: &'static str = "https://api.digitalocean.com/v2/volumes";

/// DigitalOcean Block Storage Volumes driver.
///
/// Uses the DO API v2 to create, attach, detach, and destroy volumes.
#[derive(Debug, PartialEq, Eq)]
pub struct DigitalOceanVolumes {
    pub token: String,
    pub region: String,
}

/// The body of a request for a new volume.
#[derive(Debug, PartialEq, Eq)]
pub struct CreateVolumeRequest {
    pub size_gigabytes: u64,
    pub name: String,
    pub region: String,
    pub filesystem_type: String,
}

/// What is to be done with a volume.
#[derive(Clone, Copy, Debug, PartialEq, Eq, Structural)]
pub enum VolumeAction {
    Attach,
    Detach,
}

/// The body of a request to do something with a volume.
#[derive(Debug, PartialEq, Eq)]
pub struct VolumeActionRequest {
    pub action: VolumeAction,
    pub droplet_id: Option<u64>,
    pub region: Option<String>,
}

/// A volume as the API tells of it.
#[derive(Debug, PartialEq, Eq)]
pub struct DoVolume {
    pub id: String,
    pub name: String,
    pub size_gigabytes: u64,
}

/// What came back for a request.
#[derive(Debug, PartialEq, Eq)]
pub enum Reply<T> {
    /// No answer came, or none that could be read: the words of the error.
    Failed(String),
    /// The API refused: its status and words.
    Refused { status: u16, text: String },
    /// The request was met.
    Done(T),
}

/// The size that a volume is asked for with: whole gibibytes, and no less than
/// one.
pub open spec fn whole_gib(size: u64) -> u64 {
    if size / GIB < 1 {
        1
    } else {
        size / GIB
    }
}

/// Volumes of the given name.
pub open spec fn volume_called(name: Seq<char>) -> spec_fn(CloudVolumeInfo) -> bool {
    |v: CloudVolumeInfo| v.name@ == name
}

/// Where requests about one volume go.
pub open spec fn action_url(id: Seq<char>) -> Seq<char> {
    VOLUMES_URL@ + "/"@ + id + "/actions"@
}

/// Whether a volume is told of as the API does.
pub open spec fn tells_of(info: CloudVolumeInfo, volume: DoVolume) -> bool {
    &&& info.id == volume.id
    &&& info.name == volume.name
    &&& info.size_bytes == volume.size_gigabytes * GIB
}

fn find_volume<'a>(volumes: &'a Vec<CloudVolumeInfo>, name: &String) -> (res: Option<
    &'a CloudVolumeInfo,
>)
    ensures
        match res {
            Some(v) => first(volumes@, volume_called(name@)) == Some(*v),
            None => first(volumes@, volume_called(name@)) is None,
        },
{
    let ghost p = volume_called(name@);
    let mut i: usize = 0;
    while i < volumes.len()
        invariant
            p == volume_called(name@),
            i <= volumes@.len(),
            forall|j: int| 0 <= j < i ==> !p(#[trigger] volumes@[j]),
        decreases volumes@.len() - i,
    {
        if same_text(volumes[i].name.as_str(), name.as_str()) {
            proof {
                lemma_is_first(volumes@, p, i as int);
            }
            return Some(&volumes[i]);
        }
        i = i + 1;
    }
    proof {
        lemma_is_first(volumes@, p, i as int);
    }
    None
}

fn url_of_action(id: &String) -> (res: String)
    ensures
        res@ == action_url(id@),
{
    let mut out = VOLUMES_URL.to_owned();
    out.append("/");
    out.append(id.as_str());
    out.append("/actions");
    out
}

impl DigitalOceanVolumes {
    /// A driver for the volumes of one region.
    pub fn new(token: String, region: String) -> (res: DigitalOceanVolumes)
        ensures
            res.token == token,
            res.region == region,
    {
        DigitalOceanVolumes { token, region }
    }

    /// What requests are authorized with.
    pub fn auth_header(&self) -> (res: String)
        ensures
            res@ == "Bearer "@ + self.token@,
    {
        let mut out = "Bearer ".to_owned();
        out.append(self.token.as_str());
        out
    }

    /// Where the volumes of the region are listed.
    pub fn list_url(&self) -> (res: String)
        ensures
            res@ == VOLUMES_URL@ + "?region="@ + self.region@,
    {
        let mut out = VOLUMES_URL.to_owned();
        out.append("?region=");
        out.append(self.region.as_str());
        out
    }

    /// Where a volume goes to be destroyed.
    pub fn destroy_url(&self, name: &String) -> (res: String)
        ensures
            res@ == VOLUMES_URL@ + "?name="@ + name@ + "&region="@ + self.region@,
    {
        let mut out = VOLUMES_URL.to_owned();
        out.append("?name=");
        out.append(name.as_str());
        out.append("&region=");
        out.append(self.region.as_str());
        out
    }

    /// Takes the answer to the request for the volumes of the region.
    pub fn list_volumes(&self, reply: Reply<Vec<DoVolume>>) -> (res: Result<
        Vec<CloudVolumeInfo>,
        StorageError,
    >)
        requires
            reply matches Reply::Done(volumes) ==> forall|i: int|
                0 <= i < volumes@.len() ==> (#[trigger] volumes@[i]).size_gigabytes * GIB
                    <= u64::MAX,
        ensures
            match reply {
                Reply::Failed(e) => res == Err::<Vec<CloudVolumeInfo>, StorageError>(
                    StorageError::Http(e),
                ),
                Reply::Refused { text, .. } => res == Err::<Vec<CloudVolumeInfo>, StorageError>(
                    StorageError::Api(text),
                ),
                Reply::Done(volumes) => {
                    &&& res is Ok
                    &&& res->Ok_0@.len() == volumes@.len()
                    &&& forall|i: int|
                        0 <= i < volumes@.len() ==> tells_of(
                            #[trigger] res->Ok_0@[i],
                            volumes@[i],
                        )
                },
            },
    {
        match reply {
            Reply::Failed(e) => Err(StorageError::Http(e)),
            Reply::Refused { text, .. } => Err(StorageError::Api(text)),
            Reply::Done(volumes) => {
                let mut out: Vec<CloudVolumeInfo> = Vec::new();
                let mut i: usize = 0;
                while i < volumes.len()
                    invariant
                        i <= volumes@.len(),
                        out@.len() == i,
                        forall|j: int|
                            0 <= j < volumes@.len() ==> (#[trigger] volumes@[j]).size_gigabytes
                                * GIB <= u64::MAX,
                        forall|j: int| 0 <= j < i ==> tells_of(#[trigger] out@[j], volumes@[j]),
                    decreases volumes@.len() - i,
                {
                    let volume = &volumes[i];
                    assert(volumes@[i as int].size_gigabytes * GIB <= u64::MAX);
                    out.push(
                        CloudVolumeInfo {
                            id: volume.id.clone(),
                            name: volume.name.clone(),
                            size_bytes: volume.size_gigabytes * gib(1),
                        },
                    );
                    i = i + 1;
                }
                Ok(out)
            },
        }
    }

    /// The request for a new volume.
    pub fn create_request(&self, name: String, size: u64) -> (res: CreateVolumeRequest)
        ensures
            res.size_gigabytes == whole_gib(size),
            res.name == name,
            res.region == self.region,
            res.filesystem_type@ == "ext4"@,
    {
        let whole: u64 = size / gib(1);
        let size_gigabytes: u64 = if whole < 1 {
            1
        } else {
            whole
        };
        CreateVolumeRequest {
            size_gigabytes,
            name,
            region: self.region.clone(),
            filesystem_type: "ext4".to_owned(),
        }
    }

    /// Takes the answer to the request for a new volume, and gives what the
    /// cloud calls it.
    pub fn created(&self, reply: Reply<DoVolume>) -> (res: Result<String, StorageError>)
        ensures
            match reply {
                Reply::Failed(e) => res == Err::<String, StorageError>(StorageError::Http(e)),
                Reply::Refused { text, .. } => res == Err::<String, StorageError>(
                    StorageError::Api(text),
                ),
                Reply::Done(volume) => res == Ok::<String, StorageError>(volume.id),
            },
    {
        match reply {
            Reply::Failed(e) => Err(StorageError::Http(e)),
            Reply::Refused { text, .. } => Err(StorageError::Api(text)),
            Reply::Done(volume) => Ok(volume.id),
        }
    }

    /// Takes the answer to the request to destroy a volume.
    pub fn destroyed(&self, name: String, reply: Reply<()>) -> (res: Result<(), StorageError>)
        ensures
            match reply {
                Reply::Failed(e) => res == Err::<(), StorageError>(StorageError::Http(e)),
                Reply::Refused { status, text } => if status == 404 {
                    res == Err::<(), StorageError>(StorageError::NotFound(name))
                } else {
                    res == Err::<(), StorageError>(StorageError::Api(text))
                },
                Reply::Done(_) => res is Ok,
            },
    {
        match reply {
            Reply::Failed(e) => Err(StorageError::Http(e)),
            Reply::Refused { status, text } => if status == 404 {
                Err(StorageError::NotFound(name))
            } else {
                Err(StorageError::Api(text))
            },
            Reply::Done(_) => Ok(()),
        }
    }

    /// The request to attach a volume to a machine, and where it goes. The
    /// volume is found by its name, and the machine must go by a number.
    pub fn attach_request(
        &self,
        volumes: &Vec<CloudVolumeInfo>,
        name: String,
        instance_id: &String,
    ) -> (res: Result<(String, VolumeActionRequest), StorageError>)
        ensures
            match first(volumes@, volume_called(name@)) {
                None => res == Err::<(String, VolumeActionRequest), StorageError>(
                    StorageError::NotFound(name),
                ),
                Some(volume) => match parsed_u64(instance_id@) {
                    None => res matches Err(StorageError::Api(e)) && e@ == "invalid droplet id"@,
                    Some(droplet_id) => {
                        &&& res is Ok
                        &&& res->Ok_0.0@ == action_url(volume.id@)
                        &&& res->Ok_0.1 == (VolumeActionRequest {
                            action: VolumeAction::Attach,
                            droplet_id: Some(droplet_id),
                            region: Some(self.region),
                        })
                    },
                },
            },
    {
        match find_volume(volumes, &name) {
            None => Err(StorageError::NotFound(name)),
            Some(volume) => match parse_u64(instance_id.as_str()) {
                None => Err(StorageError::Api("invalid droplet id".to_owned())),
                Some(droplet_id) => Ok(
                    (
                        url_of_action(&volume.id),
                        VolumeActionRequest {
                            action: VolumeAction::Attach,
                            droplet_id: Some(droplet_id),
                            region: Some(self.region.clone()),
                        },
                    ),
                ),
            },
        }
    }

    /// The request to detach a volume, and where it goes. The volume is found
    /// by its name.
    pub fn detach_request(&self, volumes: &Vec<CloudVolumeInfo>, name: String) -> (res: Result<
        (String, VolumeActionRequest),
        StorageError,
    >)
        ensures
            match first(volumes@, volume_called(name@)) {
                None => res == Err::<(String, VolumeActionRequest), StorageError>(
                    StorageError::NotFound(name),
                ),
                Some(volume) => {
                    &&& res is Ok
                    &&& res->Ok_0.0@ == action_url(volume.id@)
                    &&& res->Ok_0.1 == (VolumeActionRequest {
                        action: VolumeAction::Detach,
                        droplet_id: None,
                        region: Some(self.region),
                    })
                },
            },
    {
        match find_volume(volumes, &name) {
            None => Err(StorageError::NotFound(name)),
            Some(volume) => Ok(
                (
                    url_of_action(&volume.id),
                    VolumeActionRequest {
                        action: VolumeAction::Detach,
                        droplet_id: None,
                        region: Some(self.region.clone()),
                    },
                ),
            ),
        }
    }

    /// Takes the answer to a request to attach or detach a volume.
    pub fn volume_action(&self, reply: Reply<()>) -> (res: Result<(), StorageError>)
        ensures
            match reply {
                Reply::Failed(e) => res == Err::<(), StorageError>(StorageError::Http(e)),
                Reply::Refused { text, .. } => res == Err::<(), StorageError>(
                    StorageError::Api(text),
                ),
                Reply::Done(_) => res is Ok,
            },
    {
        match reply {
            Reply::Failed(e) => Err(StorageError::Http(e)),
            Reply::Refused { text, .. } => Err(StorageError::Api(text)),
            Reply::Done(_) => Ok(()),
        }
    }
}

impl VolumeAction {
    /// The word for what is to be done.
    pub open spec fn word(self) -> Seq<char> {
        match self {
            VolumeAction::Attach => "attach"@,
            VolumeAction::Detach => "detach"@,
        }
    }

    /// The word for what is to be done.
    pub fn to_text(&self) -> (res: String)
        ensures
            res@ == self.word(),
    {
        match self {
            VolumeAction::Attach => "attach".to_owned(),
            VolumeAction::Detach => "detach".to_owned(),
        }
    }
}

/// A volume that is created is never smaller than a gibibyte, and otherwise
/// smaller than asked for by less than one.
pub proof fn created_volumes_come_close(size: u64)
    ensures
        whole_gib(size) >= 1,
        size >= GIB ==> whole_gib(size) * GIB <= size < whole_gib(size) * GIB + GIB,
{
}

/// A volume is found by its name, the first where there are several, and none is found
/// where none bears it; requests about it go to what the cloud calls it.
pub proof fn volumes_are_found_by_name(volumes: Seq<CloudVolumeInfo>, name: Seq<char>, i: int)
    ensures
        0 <= i < volumes.len() && volumes[i].name@ == name && (forall|j: int|
            0 <= j < i ==> (#[trigger] volumes[j]).name@ != name) ==> first(
            volumes,
            volume_called(name),
        ) == Some(volumes[i]),
        (forall|j: int| 0 <= j < volumes.len() ==> (#[trigger] volumes[j]).name@ != name)
            ==> first(volumes, volume_called(name)) is None,
        action_url(name) == "https://api.digitalocean.com/v2/volumes"@ + "/"@ + name
            + "/actions"@,
{
    let p = volume_called(name);
    if 0 <= i < volumes.len() && volumes[i].name@ == name && (forall|j: int|
        0 <= j < i ==> (#[trigger] volumes[j]).name@ != name) {
        lemma_is_first(volumes, p, i);
    }
    if forall|j: int| 0 <= j < volumes.len() ==> (#[trigger] volumes[j]).name@ != name {
        lemma_is_first(volumes, p, volumes.len() as int);
    }
}

/// A volume is told of by its own name and id, with its size in bytes; what is to be
/// done with it has its own word.
pub proof fn volumes_are_told_of_by_the_cloud(info: CloudVolumeInfo, volume: DoVolume)
    requires
        tells_of(info, volume),
    ensures
        info.id == volume.id,
        info.name == volume.name,
        info.size_bytes == volume.size_gigabytes * 1024 * 1024 * 1024,
        VolumeAction::Attach.word() == "attach"@,
        VolumeAction::Detach.word() == "detach"@,
{
}

} // verus!
