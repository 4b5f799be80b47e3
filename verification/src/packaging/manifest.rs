//! Package manifests: the app and service descriptions read from their
//! directories, the package record derived from them, and the exact
//! rendering of `packageinfo.json`.

use vstd::prelude::*;
use vstd::string::StringExecFns;

use crate::text::{json_string, append_json_string};

verus! {

/// The fields of an `appinfo.json` the packager reads.
pub struct AppInfo {
    pub id: String,
    pub version: String,
    /// The `type` field of the manifest: `"native"` marks a native app.
    pub app_type: String,
    pub main: String,
    pub title: String,
    pub vendor: Option<String>,
}

/// The fields of a `services.json` the packager reads.
pub struct ServiceInfo {
    pub id: String,
    pub description: Option<String>,
    /// `"native"` marks a native service.
    pub engine: Option<String>,
    pub executable: Option<String>,
}

/// The package record: the app's id doubles as the package id, and the
/// services are listed by id.
pub struct PackageInfo {
    pub id: String,
    pub version: String,
    pub app: String,
    pub services: Vec<String>,
}

/// The JSON list items of the service ids, comma-separated.
pub open spec fn services_items(ids: Seq<Seq<char>>) -> Seq<char>
    decreases ids.len(),
{
    if ids.len() == 0 {
        Seq::empty()
    } else if ids.len() == 1 {
        json_string(ids[0])
    } else {
        services_items(ids.drop_last()) + seq![','] + json_string(ids.last())
    }
}

/// The exact text of `packageinfo.json`: id, version and app, the service
/// list only when it is not empty, and a trailing newline.
pub open spec fn packageinfo_json(
    id: Seq<char>,
    version: Seq<char>,
    app: Seq<char>,
    services: Seq<Seq<char>>,
) -> Seq<char> {
    "{\"id\":"@ + json_string(id) + ",\"version\":"@ + json_string(version) + ",\"app\":"@
        + json_string(app) + (if services.len() == 0 {
        Seq::<char>::empty()
    } else {
        ",\"services\":["@ + services_items(services) + "]"@
    }) + "}\n"@
}

/// The views of a list of strings.
pub open spec fn str_views(v: Seq<String>) -> Seq<Seq<char>> {
    v.map_values(|s: String| s@)
}

/// The ids of a list of services.
pub open spec fn service_ids(v: Seq<ServiceInfo>) -> Seq<Seq<char>> {
    v.map_values(|s: ServiceInfo| s.id@)
}

impl PackageInfo {
    /// The package record for an app and its services: the package takes
    /// the app's id and version, and lists each service by its id.
    pub fn from_input(app_info: &AppInfo, services: &Vec<ServiceInfo>) -> (r: PackageInfo)
        ensures
            r.id@ == app_info.id@,
            r.version@ == app_info.version@,
            r.app@ == app_info.id@,
            str_views(r.services@) == service_ids(services@),
    {
        let mut ids: Vec<String> = Vec::new();
        let n = services.len();
        let mut i: usize = 0;
        while i < n
            invariant
                n == services@.len(),
                i <= n,
                ids@.len() == i,
                forall|k: int| 0 <= k < i ==> #[trigger] ids@[k]@ == services@[k].id@,
            decreases n - i,
        {
            ids.push(services[i].id.clone());
            i = i + 1;
        }
        proof {
            assert(str_views(ids@) =~= service_ids(services@));
        }
        PackageInfo {
            id: app_info.id.clone(),
            version: app_info.version.clone(),
            app: app_info.id.clone(),
            services: ids,
        }
    }

    /// Renders `packageinfo.json` exactly.
    pub fn render_json(&self) -> (r: String)
        ensures
            r@ == packageinfo_json(self.id@, self.version@, self.app@, str_views(self.services@)),
    {
        let mut s = String::from_str("{\"id\":");
        append_json_string(&mut s, self.id.as_str());
        s.append(",\"version\":");
        append_json_string(&mut s, self.version.as_str());
        s.append(",\"app\":");
        append_json_string(&mut s, self.app.as_str());
        let n = self.services.len();
        if n > 0 {
            s.append(",\"services\":[");
            let mut i: usize = 0;
            while i < n
                invariant
                    n == self.services@.len(),
                    n > 0,
                    i <= n,
                    s@ == "{\"id\":"@ + json_string(self.id@) + ",\"version\":"@ + json_string(
                        self.version@,
                    ) + ",\"app\":"@ + json_string(self.app@) + ",\"services\":["@
                        + services_items(str_views(self.services@).take(i as int)),
                decreases n - i,
            {
                if i > 0 {
                    s.append(",");
                }
                append_json_string(&mut s, self.services[i].as_str());
                proof {
                    let ids = str_views(self.services@);
                    assert(ids.take(i + 1).drop_last() =~= ids.take(i as int));
                    assert(ids.take(i + 1).last() == ids[i as int]);
                    if i > 0 {
                        assert(services_items(ids.take(i + 1)) == services_items(ids.take(i as int))
                            + seq![','] + json_string(ids[i as int]));
                    } else {
                        assert(ids.take(1).len() == 1);
                        assert(services_items(ids.take(1)) == json_string(ids[0]));
                    }
                    reveal_strlit(",");
                }
                i = i + 1;
            }
            s.append("]}\n");
            proof {
                assert(str_views(self.services@).take(n as int) =~= str_views(self.services@));
                reveal_strlit("]}\n");
                reveal_strlit("]");
                reveal_strlit("}\n");
                assert(s@ =~= packageinfo_json(
                    self.id@,
                    self.version@,
                    self.app@,
                    str_views(self.services@),
                ));
            }
        } else {
            s.append("}\n");
            proof {
                assert(s@ =~= packageinfo_json(
                    self.id@,
                    self.version@,
                    self.app@,
                    str_views(self.services@),
                ));
            }
        }
        s
    }

    /// The rendered `packageinfo.json` as bytes.
    pub fn render_json_bytes(&self) -> (r: Vec<u8>)
        ensures
            r@ == vstd::utf8::encode_utf8(
                packageinfo_json(self.id@, self.version@, self.app@, str_views(self.services@)),
            ),
    {
        let s = self.render_json();
        s.as_str().as_bytes_vec()
    }
}

} // verus!
