//! Device records and the pure logic of the device registry: lookup,
//! default selection, insertion and removal. Reading and writing the
//! registry file is the callers' business; everything here works on plain
//! values.

use vstd::prelude::*;
use vstd::string::StringExecFns;

use crate::text::str_has_prefix;

verus! {

/// Where the private key for a device comes from: a file name inside the
/// local SSH key store, an absolute path, or the raw key content itself.
#[derive(Clone, Debug)]
pub enum PrivateKey {
    Name { name: String },
    Path { path: String },
    Data { data: String },
}

/// The preferred file-transfer mode of a device.
#[derive(Clone, Copy, Debug, PartialEq, Eq, Structural)]
pub enum FileTransfer {
    Stream,
    Sftp,
}

/// Connection coordinates and credential locator of one target device.
#[derive(Clone, Debug)]
pub struct Device {
    pub name: String,
    pub host: String,
    pub port: u16,
    pub username: String,
    pub profile: String,
    pub password: Option<String>,
    pub private_key: Option<PrivateKey>,
    pub passphrase: Option<String>,
    pub files: Option<FileTransfer>,
    pub default: Option<bool>,
    pub description: Option<String>,
    pub order: Option<String>,
}

/// View of a private key at the mathematical level.
pub enum PrivateKeyV {
    Name { name: Seq<char> },
    Path { path: Seq<char> },
    Data { data: Seq<char> },
}

/// View of a device: every text field as a sequence of characters.
pub struct DeviceV {
    pub name: Seq<char>,
    pub host: Seq<char>,
    pub port: u16,
    pub username: Seq<char>,
    pub profile: Seq<char>,
    pub password: Option<Seq<char>>,
    pub private_key: Option<PrivateKeyV>,
    pub passphrase: Option<Seq<char>>,
    pub files: Option<FileTransfer>,
    pub default: Option<bool>,
    pub description: Option<Seq<char>>,
    pub order: Option<Seq<char>>,
}

pub open spec fn opt_str_view(o: Option<String>) -> Option<Seq<char>> {
    match o {
        Some(s) => Some(s@),
        None => None,
    }
}

impl View for PrivateKey {
    type V = PrivateKeyV;

    open spec fn view(&self) -> PrivateKeyV {
        match self {
            PrivateKey::Name { name } => PrivateKeyV::Name { name: name@ },
            PrivateKey::Path { path } => PrivateKeyV::Path { path: path@ },
            PrivateKey::Data { data } => PrivateKeyV::Data { data: data@ },
        }
    }
}

impl View for Device {
    type V = DeviceV;

    open spec fn view(&self) -> DeviceV {
        DeviceV {
            name: self.name@,
            host: self.host@,
            port: self.port,
            username: self.username@,
            profile: self.profile@,
            password: opt_str_view(self.password),
            private_key: match self.private_key {
                Some(k) => Some(k@),
                None => None,
            },
            passphrase: opt_str_view(self.passphrase),
            files: self.files,
            default: self.default,
            description: opt_str_view(self.description),
            order: opt_str_view(self.order),
        }
    }
}

fn clone_opt_string(o: &Option<String>) -> (r: Option<String>)
    ensures
        opt_str_view(r) == opt_str_view(*o),
{
    match o {
        Some(s) => Some(s.clone()),
        None => None,
    }
}

impl PrivateKey {
    /// An exact copy, at the level the contracts speak of.
    pub fn duplicate(&self) -> (r: PrivateKey)
        ensures
            r@ == self@,
    {
        match self {
            PrivateKey::Name { name } => PrivateKey::Name { name: name.clone() },
            PrivateKey::Path { path } => PrivateKey::Path { path: path.clone() },
            PrivateKey::Data { data } => PrivateKey::Data { data: data.clone() },
        }
    }
}

impl Device {
    /// An exact copy, at the level the contracts speak of.
    pub fn duplicate(&self) -> (r: Device)
        ensures
            r@ == self@,
    {
        Device {
            name: self.name.clone(),
            host: self.host.clone(),
            port: self.port,
            username: self.username.clone(),
            profile: self.profile.clone(),
            password: clone_opt_string(&self.password),
            private_key: match &self.private_key {
                Some(k) => Some(k.duplicate()),
                None => None,
            },
            passphrase: clone_opt_string(&self.passphrase),
            files: self.files,
            default: self.default,
            description: clone_opt_string(&self.description),
            order: clone_opt_string(&self.order),
        }
    }

    /// The passphrase that should actually be used: a blank passphrase is
    /// treated as absent.
    pub fn valid_passphrase(&self) -> (r: Option<String>)
        ensures
            match self@.passphrase {
                Some(p) => if p.len() > 0 {
                    r matches Some(s) && s@ == p
                } else {
                    r is None
                },
                None => r is None,
            },
    {
        match &self.passphrase {
            Some(p) => if p.as_str().is_empty() {
                None
            } else {
                Some(p.clone())
            },
            None => None,
        }
    }

    /// True when this device is marked as the registry default.
    pub fn is_default(&self) -> (r: bool)
        ensures
            r == (self@.default == Some(true)),
    {
        match self.default {
            Some(b) => b,
            None => false,
        }
    }
}

/// How a caller names the device to work on: by name, or through a prompt.
#[derive(Clone, Debug)]
pub enum DeviceSelection {
    Name(String),
    Pick,
}

impl core::str::FromStr for DeviceSelection {
    type Err = ();

    fn from_str(s: &str) -> Result<DeviceSelection, ()> {
        if s.is_empty() {
            Ok(DeviceSelection::Pick)
        } else {
            Ok(DeviceSelection::Name(s.to_owned()))
        }
    }
}

/// A blocking, cancellable "choose one device" prompt. The core gives no
/// implementation; front ends do.
pub trait PickPrompt {
    /// Picks the index of one of the given devices, or none to cancel.
    fn pick(&self, devices: &Vec<Device>) -> (r: Option<usize>);
}

/// The in-memory registry of devices.
pub struct DeviceManager {
    pub devices: Vec<Device>,
}

/// The views of a list of names.
pub open spec fn str_views_of(v: Seq<String>) -> Seq<Seq<char>> {
    v.map_values(|s: String| s@)
}

/// The devices that survive removing every device named `name`, in order.
pub open spec fn kept_devices(devices: Seq<Device>, name: Seq<char>) -> Seq<Device>
    decreases devices.len(),
{
    if devices.len() == 0 {
        Seq::empty()
    } else if devices.last()@.name == name {
        kept_devices(devices.drop_last(), name)
    } else {
        kept_devices(devices.drop_last(), name).push(devices.last())
    }
}

/// Whether any device being removed carried the default mark.
pub open spec fn removed_had_default(devices: Seq<Device>, name: Seq<char>) -> bool {
    exists|i: int|
        0 <= i < devices.len() && (#[trigger] devices[i]@).name == name && devices[i]@.default
            == Some(true)
}

/// The key-store names of the removed devices' managed keys: keys named in
/// the store, with the `webos_` prefix.
pub open spec fn removed_key_names(devices: Seq<Device>, name: Seq<char>) -> Seq<Seq<char>>
    decreases devices.len(),
{
    if devices.len() == 0 {
        Seq::empty()
    } else {
        removed_key_names(devices.drop_last(), name) + (if devices.last()@.name == name {
            match devices.last()@.private_key {
                Some(PrivateKeyV::Name { name: key }) => if key.len() >= "webos_"@.len()
                    && key.take("webos_"@.len() as int) == "webos_"@ {
                    seq![key]
                } else {
                    Seq::empty()
                },
                _ => Seq::empty(),
            }
        } else {
            Seq::<Seq<char>>::empty()
        })
    }
}

impl DeviceManager {
    /// A registry holding the given devices.
    pub fn new(devices: Vec<Device>) -> (r: DeviceManager)
        ensures
            r.devices@ == devices@,
    {
        DeviceManager { devices }
    }

    /// All devices, in registry order.
    pub fn list(&self) -> (r: &Vec<Device>)
        ensures
            r@ == self.devices@,
    {
        &self.devices
    }

    /// The index of the first device named `name`, if any.
    fn index_of_name(&self, name: &String) -> (r: Option<usize>)
        ensures
            match r {
                Some(i) => i < self.devices@.len() && self.devices@[i as int]@.name == name@
                    && forall|j: int| 0 <= j < i ==> self.devices@[j]@.name != name@,
                None => forall|j: int|
                    0 <= j < self.devices@.len() ==> self.devices@[j]@.name != name@,
            },
    {
        let n = self.devices.len();
        let mut i: usize = 0;
        while i < n
            invariant
                n == self.devices@.len(),
                i <= n,
                forall|j: int| 0 <= j < i ==> self.devices@[j]@.name != name@,
            decreases n - i,
        {
            if self.devices[i].name == *name {
                return Some(i);
            }
            i = i + 1;
        }
        None
    }

    /// The index of the first device marked default, if any.
    fn index_of_default(&self) -> (r: Option<usize>)
        ensures
            match r {
                Some(i) => i < self.devices@.len() && self.devices@[i as int]@.default == Some(true)
                    && forall|j: int| 0 <= j < i ==> self.devices@[j]@.default != Some(true),
                None => forall|j: int|
                    0 <= j < self.devices@.len() ==> self.devices@[j]@.default != Some(true),
            },
    {
        let n = self.devices.len();
        let mut i: usize = 0;
        while i < n
            invariant
                n == self.devices@.len(),
                i <= n,
                forall|j: int| 0 <= j < i ==> self.devices@[j]@.default != Some(true),
            decreases n - i,
        {
            if self.devices[i].is_default() {
                return Some(i);
            }
            i = i + 1;
        }
        None
    }

    /// The device named `name`, or, with no name given, the registry
    /// default; in both cases the first match.
    pub fn find_or_default(&self, name: Option<&String>) -> (r: Option<Device>)
        ensures
            match name {
                Some(n) => match r {
                    Some(d) => exists|i: int|
                        0 <= i < self.devices@.len() && #[trigger] self.devices@[i]@ == d@
                            && d@.name == n@ && (forall|j: int|
                            0 <= j < i ==> self.devices@[j]@.name != n@),
                    None => forall|j: int|
                        0 <= j < self.devices@.len() ==> self.devices@[j]@.name != n@,
                },
                None => match r {
                    Some(d) => exists|i: int|
                        0 <= i < self.devices@.len() && #[trigger] self.devices@[i]@ == d@
                            && d@.default == Some(true) && (forall|j: int|
                            0 <= j < i ==> self.devices@[j]@.default != Some(true)),
                    None => forall|j: int|
                        0 <= j < self.devices@.len() ==> self.devices@[j]@.default != Some(true),
                },
            },
    {
        let found = match name {
            Some(n) => self.index_of_name(n),
            None => self.index_of_default(),
        };
        match found {
            Some(i) => Some(self.devices[i].duplicate()),
            None => None,
        }
    }

    /// Picks a device per the caller's selection: an explicit name is looked
    /// up, no selection falls back to the registry default, and `Pick` defers
    /// to the prompt.
    pub fn pick<P: PickPrompt>(&self, selection: Option<&DeviceSelection>, prompt: &P) -> (r: Option<
        Device,
    >)
        ensures
            match selection {
                Some(s) => match s {
                    DeviceSelection::Name(n) => match r {
                        Some(d) => exists|i: int|
                            0 <= i < self.devices@.len() && #[trigger] self.devices@[i]@ == d@
                                && d@.name == n@ && (forall|j: int|
                                0 <= j < i ==> self.devices@[j]@.name != n@),
                        None => forall|j: int|
                            0 <= j < self.devices@.len() ==> self.devices@[j]@.name != n@,
                    },
                    DeviceSelection::Pick => r matches Some(d) ==> exists|i: int|
                        0 <= i < self.devices@.len() && self.devices@[i]@ == d@,
                },
                None => match r {
                    Some(d) => exists|i: int|
                        0 <= i < self.devices@.len() && #[trigger] self.devices@[i]@ == d@
                            && d@.default == Some(true) && (forall|j: int|
                            0 <= j < i ==> self.devices@[j]@.default != Some(true)),
                    None => forall|j: int|
                        0 <= j < self.devices@.len() ==> self.devices@[j]@.default != Some(true),
                },
            },
    {
        match selection {
            Some(DeviceSelection::Name(n)) => self.find_or_default(Some(n)),
            Some(DeviceSelection::Pick) => match prompt.pick(&self.devices) {
                Some(i) => if i < self.devices.len() {
                    Some(self.devices[i].duplicate())
                } else {
                    None
                },
                None => None,
            },
            None => self.find_or_default(None),
        }
    }

    /// Marks the named device as the one default and clears the mark from
    /// every other device; returns the named device as stored, if present.
    pub fn set_default(&mut self, name: &String) -> (r: Option<Device>)
        ensures
            final(self).devices@.len() == old(self).devices@.len(),
            forall|i: int|
                0 <= i < old(self).devices@.len() ==> #[trigger] final(self).devices@[i]@ == (
                DeviceV {
                    default: if old(self).devices@[i]@.name == name@ {
                        Some(true)
                    } else {
                        None
                    },
                    ..old(self).devices@[i]@
                }),
            (r is Some) == (exists|i: int|
                0 <= i < old(self).devices@.len() && old(self).devices@[i]@.name == name@),
            r matches Some(d) ==> d@.name == name@ && d@.default == Some(true),
    {
        let n = self.devices.len();
        let mut out: Vec<Device> = Vec::new();
        let mut result: Option<Device> = None;
        let mut i: usize = 0;
        while i < n
            invariant
                n == old(self).devices@.len(),
                self.devices@ == old(self).devices@,
                i <= n,
                out@.len() == i,
                forall|k: int|
                    0 <= k < i ==> #[trigger] out@[k]@ == (DeviceV {
                        default: if old(self).devices@[k]@.name == name@ {
                            Some(true)
                        } else {
                            None
                        },
                        ..old(self).devices@[k]@
                    }),
                (result is Some) == (exists|k: int|
                    0 <= k < i && old(self).devices@[k]@.name == name@),
                result matches Some(d) ==> d@.name == name@ && d@.default == Some(true),
            decreases n - i,
        {
            let mut d = self.devices[i].duplicate();
            if d.name == *name {
                d.default = Some(true);
                result = Some(d.duplicate());
            } else {
                d.default = None;
            }
            out.push(d);
            i = i + 1;
        }
        self.devices = out;
        result
    }

    /// Removes every device with the given name. The devices that stay
    /// keep their order; when a removed device was the default and any
    /// device is left, the first one left becomes the default. Returns the
    /// names of the stored keys to delete: with `remove_key` set, each
    /// removed device's key-store name beginning with the managed key
    /// prefix.
    pub fn remove(&mut self, name: &String, remove_key: bool) -> (r: Vec<String>)
        ensures
            ({
                let kept = kept_devices(old(self).devices@, name@);
                let promote = removed_had_default(old(self).devices@, name@) && kept.len() > 0;
                final(self).devices@.len() == kept.len() && (forall|i: int|
                    0 <= i < kept.len() ==> #[trigger] final(self).devices@[i]@ == (if promote && i
                        == 0 {
                        DeviceV { default: Some(true), ..kept[0]@ }
                    } else {
                        kept[i]@
                    }))
            }),
            str_views_of(r@) == (if remove_key {
                removed_key_names(old(self).devices@, name@)
            } else {
                Seq::<Seq<char>>::empty()
            }),
    {
        let n = self.devices.len();
        let mut kept: Vec<Device> = Vec::new();
        let mut keys: Vec<String> = Vec::new();
        let mut had_default = false;
        let mut i: usize = 0;
        while i < n
            invariant
                n == self.devices@.len(),
                self.devices@ == old(self).devices@,
                i <= n,
                kept@.len() == kept_devices(self.devices@.take(i as int), name@).len(),
                forall|k: int|
                    0 <= k < kept@.len() ==> #[trigger] kept@[k]@ == kept_devices(
                        self.devices@.take(i as int),
                        name@,
                    )[k]@,
                had_default == removed_had_default(self.devices@.take(i as int), name@),
                str_views_of(keys@) == (if remove_key {
                    removed_key_names(self.devices@.take(i as int), name@)
                } else {
                    Seq::<Seq<char>>::empty()
                }),
            decreases n - i,
        {
            let d = &self.devices[i];
            proof {
                let pre = self.devices@.take(i as int);
                assert(self.devices@.take(i + 1).drop_last() =~= pre);
                assert(self.devices@.take(i + 1).last() == self.devices@[i as int]);
            }
            if d.name == *name {
                if d.is_default() {
                    had_default = true;
                }
                if remove_key {
                    if let Some(PrivateKey::Name { name: key_name }) = &d.private_key {
                        if str_has_prefix(key_name.as_str(), "webos_") {
                            keys.push(key_name.clone());
                            proof {
                                assert(str_views_of(keys@) =~= str_views_of(
                                    keys@.drop_last(),
                                ).push(key_name@));
                            }
                        }
                    }
                }
            } else {
                kept.push(d.duplicate());
            }
            proof {
                if remove_key {
                    assert(str_views_of(keys@) =~= removed_key_names(
                        self.devices@.take(i + 1),
                        name@,
                    ));
                }
            }
            i = i + 1;
        }
        proof {
            assert(self.devices@.take(n as int) =~= self.devices@);
        }
        if had_default && kept.len() > 0 {
            let ghost pre_kept = kept@;
            let mut first = kept.remove(0);
            first.default = Some(true);
            kept.insert(0, first);
            proof {
                assert(kept@.len() == pre_kept.len());
                assert(kept@[0]@ == (DeviceV { default: Some(true), ..pre_kept[0]@ }));
                assert forall|k: int| 0 < k < kept@.len() implies kept@[k] == pre_kept[k] by {
                    assert(kept@[k] == pre_kept.remove(0)[k - 1]);
                }
            }
        }
        self.devices = kept;
        keys
    }

    /// Appends a device to the registry.
    pub fn add(&mut self, device: Device) -> (r: Device)
        ensures
            final(self).devices@.len() == old(self).devices@.len() + 1,
            forall|i: int|
                0 <= i < old(self).devices@.len() ==> #[trigger] final(self).devices@[i]@ == old(
                    self,
                ).devices@[i]@,
            final(self).devices@.last()@ == device@,
            r@ == device@,
    {
        let r = device.duplicate();
        self.devices.push(device);
        r
    }
}

} // verus!
