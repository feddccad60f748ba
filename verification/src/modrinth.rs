//! The Modrinth registry driver: configuration, query formulation, and
//! the reading of API responses into derivations. The HTTPS exchange
//! itself happens in the runner; everything the driver decides about the
//! responses is verified here.

use vstd::prelude::*;
use crate::api::{spec_set_param, HTTPSQuery};
use crate::json::{as_arr_of, as_str_of, as_u64_of, json_get, JsonValue};
use crate::manifest::{cfg_as_arr, cfg_as_int, cfg_as_str, cfg_as_table, cfg_get, cfg_lookup, ConfigValue};
use crate::package::{Derivation, DerivationModel};
use crate::text::{dec_rep_signed, i64_to_string, str_eq};

verus! {

/// "api response did not contain key `<key>`"
pub open spec fn missing_key_msg(key: Seq<char>) -> Seq<char> {
    "api response did not contain key `"@ + key + "`"@
}

/// "api response contained key `<key>` but was not a string"
pub open spec fn not_string_msg(key: Seq<char>) -> Seq<char> {
    "api response contained key `"@ + key + "` but was not a string"@
}

/// "api response contained key `<key>` but was not an array"
pub open spec fn not_array_msg(key: Seq<char>) -> Seq<char> {
    "api response contained key `"@ + key + "` but was not an array"@
}

/// "api response contained key `<key>` but an element was not a string"
pub open spec fn elem_not_string_msg(key: Seq<char>) -> Seq<char> {
    "api response contained key `"@ + key + "` but an element was not a string"@
}

/// The string field under `key`, or the message naming what was wrong.
pub open spec fn str_field(v: JsonValue, key: Seq<char>) -> Result<Seq<char>, Seq<char>> {
    match json_get(v, key) {
        None => Err(missing_key_msg(key)),
        Some(f) => match as_str_of(f) {
            Some(s) => Ok(s),
            None => Err(not_string_msg(key)),
        },
    }
}

/// Read the elements of an array as strings; a non-string element is the
/// given error.
pub open spec fn str_items(items: Seq<JsonValue>, err: Seq<char>) -> Result<
    Seq<Seq<char>>,
    Seq<char>,
>
    decreases items.len(),
{
    if items.len() == 0 {
        Ok(Seq::empty())
    } else {
        match as_str_of(items.first()) {
            None => Err(err),
            Some(s) => match str_items(items.drop_first(), err) {
                Ok(rest) => Ok(seq![s] + rest),
                Err(e) => Err(e),
            },
        }
    }
}

/// Prepend a prefix to the success value of a result.
pub open spec fn with_prefix(prefix: Seq<Seq<char>>, r: Result<Seq<Seq<char>>, Seq<char>>)
    -> Result<Seq<Seq<char>>, Seq<char>> {
    match r {
        Ok(rest) => Ok(prefix + rest),
        Err(e) => Err(e),
    }
}

fn missing_key_err(key: &str) -> (r: String)
    ensures
        r@ == missing_key_msg(key@),
{
    let mut s = "api response did not contain key `".to_owned();
    s.append(key);
    s.append("`");
    s
}

fn not_string_err(key: &str) -> (r: String)
    ensures
        r@ == not_string_msg(key@),
{
    let mut s = "api response contained key `".to_owned();
    s.append(key);
    s.append("` but was not a string");
    s
}

fn not_array_err(key: &str) -> (r: String)
    ensures
        r@ == not_array_msg(key@),
{
    let mut s = "api response contained key `".to_owned();
    s.append(key);
    s.append("` but was not an array");
    s
}

fn elem_not_string_err(key: &str) -> (r: String)
    ensures
        r@ == elem_not_string_msg(key@),
{
    let mut s = "api response contained key `".to_owned();
    s.append(key);
    s.append("` but an element was not a string");
    s
}

/// The string field under `key` of a response value.
pub fn get_str_field(v: &JsonValue, key: &str) -> (r: Result<String, String>)
    ensures
        (str_field(*v, key@) matches Ok(s) ==> (r matches Ok(x) && x@ == s)),
        (str_field(*v, key@) matches Err(e) ==> (r matches Err(x) && x@ == e)),
{
    match v.get(key) {
        None => Err(missing_key_err(key)),
        Some(f) => match f.as_str() {
            Some(s) => Ok(s.clone()),
            None => Err(not_string_err(key)),
        },
    }
}

/// Read every element of an array as a string.
fn collect_str_items(items: &Vec<JsonValue>, err: &str) -> (r: Result<Vec<String>, String>)
    ensures
        (str_items(items@, err@) matches Ok(ss) ==> (r matches Ok(x) && x.deep_view() == ss)),
        (str_items(items@, err@) matches Err(e) ==> (r matches Err(x) && x@ == e)),
{
    let len = items.len();
    let mut out: Vec<String> = Vec::new();
    let mut i: usize = 0;
    proof {
        assert(items@.skip(0) =~= items@);
        assert(out.deep_view() + str_items(items@, err@)->Ok_0 =~= str_items(items@, err@)->Ok_0);
    }
    while i < len
        invariant
            len == items@.len(),
            i <= len,
            str_items(items@, err@) == with_prefix(
                out.deep_view(),
                str_items(items@.skip(i as int), err@),
            ),
        decreases len - i,
    {
        proof {
            assert(items@.skip(i as int).first() == items@[i as int]);
            assert(items@.skip(i as int).drop_first() =~= items@.skip(i + 1));
        }
        match items[i].as_str() {
            None => {
                return Err(err.to_owned());
            },
            Some(s) => {
                let ghost pre = out.deep_view();
                out.push(s.clone());
                proof {
                    assert(out.deep_view() =~= pre.push(s@));
                    if str_items(items@.skip(i + 1), err@) is Ok {
                        let rest = str_items(items@.skip(i + 1), err@)->Ok_0;
                        assert(pre + (seq![s@] + rest) =~= pre.push(s@) + rest);
                    }
                }
            },
        }
        i = i + 1;
    }
    proof {
        assert(items@.skip(len as int) =~= Seq::<JsonValue>::empty());
        if str_items(items@, err@) is Ok {
            assert(out.deep_view() + Seq::<Seq<char>>::empty() =~= out.deep_view());
        }
    }
    Ok(out)
}

/// What one project response names: its slug and its categories.
#[derive(Debug)]
pub struct ProjectInfo {
    pub slug: String,
    pub categories: Vec<String>,
}

/// The mathematical content of a project response.
#[verifier::ext_equal]
pub ghost struct ProjectInfoModel {
    pub slug: Seq<char>,
    pub categories: Seq<Seq<char>>,
}

impl View for ProjectInfo {
    type V = ProjectInfoModel;

    open spec fn view(&self) -> ProjectInfoModel {
        ProjectInfoModel { slug: self.slug@, categories: self.categories.deep_view() }
    }
}

/// Reading a project response: its slug and category list.
pub open spec fn spec_parse_project(v: JsonValue) -> Result<ProjectInfoModel, Seq<char>> {
    if !(v is Obj) {
        Err("api response was not an object"@)
    } else {
        match str_field(v, "slug"@) {
            Err(e) => Err(e),
            Ok(slug) => match json_get(v, "categories"@) {
                None => Err(missing_key_msg("categories"@)),
                Some(c) => match as_arr_of(c) {
                    None => Err(not_array_msg("categories"@)),
                    Some(items) => match str_items(items, elem_not_string_msg("categories"@)) {
                        Err(e) => Err(e),
                        Ok(cats) => Ok(ProjectInfoModel { slug, categories: cats }),
                    },
                },
            },
        }
    }
}

/// Read a project response.
pub fn parse_project(v: &JsonValue) -> (r: Result<ProjectInfo, String>)
    ensures
        (spec_parse_project(*v) matches Ok(m) ==> (r matches Ok(p) && p@ == m)),
        (spec_parse_project(*v) matches Err(e) ==> (r matches Err(x) && x@ == e)),
{
    if !v.is_object() {
        return Err("api response was not an object".to_owned());
    }
    let slug = match get_str_field(v, "slug") {
        Ok(s) => s,
        Err(e) => {
            return Err(e);
        },
    };
    let c = match v.get("categories") {
        Some(c) => c,
        None => {
            return Err(missing_key_err("categories"));
        },
    };
    let items = match c.as_array() {
        Some(items) => items,
        None => {
            return Err(not_array_err("categories"));
        },
    };
    let err = elem_not_string_err("categories");
    let categories = match collect_str_items(items, err.as_str()) {
        Ok(cats) => cats,
        Err(e) => {
            return Err(e);
        },
    };
    let p = ProjectInfo { slug, categories };
    proof {
        assert(p@ =~~= spec_parse_project(*v)->Ok_0);
    }
    Ok(p)
}

/// One required dependency named by a version response.
#[derive(Debug)]
pub struct DependencyRef {
    pub project_id: String,
    pub version_id: Option<String>,
}

/// The mathematical content of a dependency reference.
#[verifier::ext_equal]
pub ghost struct DependencyRefModel {
    pub project_id: Seq<char>,
    pub version_id: Option<Seq<char>>,
}

impl View for DependencyRef {
    type V = DependencyRefModel;

    open spec fn view(&self) -> DependencyRefModel {
        DependencyRefModel {
            project_id: self.project_id@,
            version_id: self.version_id.deep_view(),
        }
    }
}

impl DeepView for DependencyRef {
    type V = DependencyRefModel;

    open spec fn deep_view(&self) -> DependencyRefModel {
        self.view()
    }
}

/// What one version response names: the version id, the first file's
/// location and digest, and the required dependencies.
#[derive(Debug)]
pub struct VersionInfo {
    pub id: String,
    pub url: String,
    pub file_name: String,
    pub sha512: String,
    pub dependencies: Vec<DependencyRef>,
}

/// The mathematical content of a version response.
#[verifier::ext_equal]
pub ghost struct VersionInfoModel {
    pub id: Seq<char>,
    pub url: Seq<char>,
    pub file_name: Seq<char>,
    pub sha512: Seq<char>,
    pub dependencies: Seq<DependencyRefModel>,
}

impl View for VersionInfo {
    type V = VersionInfoModel;

    open spec fn view(&self) -> VersionInfoModel {
        VersionInfoModel {
            id: self.id@,
            url: self.url@,
            file_name: self.file_name@,
            sha512: self.sha512@,
            dependencies: self.dependencies.deep_view(),
        }
    }
}

/// Reading the dependency list: only entries marked `required` are kept,
/// each with its project id and optional version id.
pub open spec fn spec_parse_deps(items: Seq<JsonValue>) -> Result<
    Seq<DependencyRefModel>,
    Seq<char>,
>
    decreases items.len(),
{
    if items.len() == 0 {
        Ok(Seq::empty())
    } else {
        let d = items.first();
        match str_field(d, "dependency_type"@) {
            Err(e) => Err(e),
            Ok(t) => if t == "required"@ {
                match str_field(d, "project_id"@) {
                    Err(e) => Err(e),
                    Ok(pid) => match json_get(d, "version_id"@) {
                        None => Err(missing_key_msg("version_id"@)),
                        Some(vv) => match spec_parse_deps(items.drop_first()) {
                            Err(e) => Err(e),
                            Ok(rest) => Ok(
                                seq![
                                    DependencyRefModel {
                                        project_id: pid,
                                        version_id: as_str_of(vv),
                                    },
                                ] + rest,
                            ),
                        },
                    },
                }
            } else {
                spec_parse_deps(items.drop_first())
            },
        }
    }
}

/// Prepend a prefix to the success value of a dependency-list result.
pub open spec fn deps_with_prefix(
    prefix: Seq<DependencyRefModel>,
    r: Result<Seq<DependencyRefModel>, Seq<char>>,
) -> Result<Seq<DependencyRefModel>, Seq<char>> {
    match r {
        Ok(rest) => Ok(prefix + rest),
        Err(e) => Err(e),
    }
}

/// Read the dependency list of a version response.
fn collect_deps(items: &Vec<JsonValue>) -> (r: Result<Vec<DependencyRef>, String>)
    ensures
        (spec_parse_deps(items@) matches Ok(ds) ==> (r matches Ok(x) && x.deep_view() == ds)),
        (spec_parse_deps(items@) matches Err(e) ==> (r matches Err(x) && x@ == e)),
{
    let len = items.len();
    let mut out: Vec<DependencyRef> = Vec::new();
    let mut i: usize = 0;
    proof {
        assert(items@.skip(0) =~= items@);
        if spec_parse_deps(items@) is Ok {
            assert(out.deep_view() + spec_parse_deps(items@)->Ok_0 =~= spec_parse_deps(
                items@,
            )->Ok_0);
        }
    }
    while i < len
        invariant
            len == items@.len(),
            i <= len,
            spec_parse_deps(items@) == deps_with_prefix(
                out.deep_view(),
                spec_parse_deps(items@.skip(i as int)),
            ),
        decreases len - i,
    {
        proof {
            assert(items@.skip(i as int).first() == items@[i as int]);
            assert(items@.skip(i as int).drop_first() =~= items@.skip(i + 1));
        }
        let d = &items[i];
        let t = match get_str_field(d, "dependency_type") {
            Ok(t) => t,
            Err(e) => {
                return Err(e);
            },
        };
        if str_eq(t.as_str(), "required") {
            let pid = match get_str_field(d, "project_id") {
                Ok(p) => p,
                Err(e) => {
                    return Err(e);
                },
            };
            let vv = match d.get("version_id") {
                Some(vv) => vv,
                None => {
                    return Err(missing_key_err("version_id"));
                },
            };
            let version_id: Option<String> = match vv.as_str() {
                Some(s) => Some(s.clone()),
                None => None,
            };
            let ghost pre = out.deep_view();
            let dep = DependencyRef { project_id: pid, version_id };
            proof {
                assert(dep@ =~~= (DependencyRefModel {
                    project_id: dep.project_id@,
                    version_id: dep.version_id.deep_view(),
                }));
            }
            out.push(dep);
            proof {
                assert(out.deep_view() =~= pre.push(out@.last().deep_view()));
                if spec_parse_deps(items@.skip(i + 1)) is Ok {
                    let rest = spec_parse_deps(items@.skip(i + 1))->Ok_0;
                    assert(pre + (seq![out@.last().deep_view()] + rest) =~= pre.push(
                        out@.last().deep_view(),
                    ) + rest);
                }
            }
        }
        i = i + 1;
    }
    proof {
        assert(items@.skip(len as int) =~= Seq::<JsonValue>::empty());
        if spec_parse_deps(items@) is Ok {
            assert(out.deep_view() + Seq::<DependencyRefModel>::empty() =~= out.deep_view());
        }
    }
    Ok(out)
}

/// Every element is an object.
pub open spec fn all_objects(items: Seq<JsonValue>) -> bool {
    forall|i: int| 0 <= i < items.len() ==> (#[trigger] items[i]) is Obj
}

fn all_objects_exec(items: &Vec<JsonValue>) -> (r: bool)
    ensures
        r == all_objects(items@),
{
    let len = items.len();
    let mut i: usize = 0;
    while i < len
        invariant
            len == items@.len(),
            i <= len,
            forall|k: int| 0 <= k < i ==> (#[trigger] items@[k]) is Obj,
        decreases len - i,
    {
        if !items[i].is_object() {
            return false;
        }
        i = i + 1;
    }
    true
}

/// Reading a version response: the id, the first file's url, filename
/// and SHA-512, and the required dependencies.
pub open spec fn spec_parse_version(v: JsonValue) -> Result<VersionInfoModel, Seq<char>> {
    if !(v is Obj) {
        Err("api response was not an object"@)
    } else {
        match str_field(v, "id"@) {
            Err(e) => Err(e),
            Ok(id) => match json_get(v, "files"@) {
                None => Err(missing_key_msg("files"@)),
                Some(f) => match as_arr_of(f) {
                    None => Err(not_array_msg("files"@)),
                    Some(files) => if !all_objects(files) {
                        Err("api response contained key `files` but an element was not an object"@)
                    } else if files.len() == 0 {
                        Err("api response contained key `files` but it was empty"@)
                    } else {
                        let file = files.first();
                        match str_field(file, "url"@) {
                            Err(e) => Err(e),
                            Ok(url) => match str_field(file, "filename"@) {
                                Err(e) => Err(e),
                                Ok(file_name) => match json_get(file, "hashes"@) {
                                    None => Err(missing_key_msg("hashes"@)),
                                    Some(h) => if !(h is Obj) {
                                        Err(
                                            "api response contained key `hashes` but was not an object"@,
                                        )
                                    } else {
                                        match json_get(h, "sha512"@) {
                                            None => Err(
                                                "in `hashes` api response did not contain key `sha512`"@,
                                            ),
                                            Some(sh) => match as_str_of(sh) {
                                                None => Err(
                                                    "in `hashes` api response contained key `sha512` but was not a string"@,
                                                ),
                                                Some(sha512) => match json_get(
                                                    v,
                                                    "dependencies"@,
                                                ) {
                                                    None => Err(missing_key_msg("dependencies"@)),
                                                    Some(dv) => match as_arr_of(dv) {
                                                        None => Err(
                                                            not_array_msg("dependencies"@),
                                                        ),
                                                        Some(deps) => match spec_parse_deps(deps) {
                                                            Err(e) => Err(e),
                                                            Ok(ds) => Ok(
                                                                VersionInfoModel {
                                                                    id,
                                                                    url,
                                                                    file_name,
                                                                    sha512,
                                                                    dependencies: ds,
                                                                },
                                                            ),
                                                        },
                                                    },
                                                },
                                            },
                                        }
                                    },
                                },
                            },
                        }
                    },
                },
            },
        }
    }
}

/// Read a version response.
pub fn parse_version(v: &JsonValue) -> (r: Result<VersionInfo, String>)
    ensures
        (spec_parse_version(*v) matches Ok(m) ==> (r matches Ok(p) && p@ == m)),
        (spec_parse_version(*v) matches Err(e) ==> (r matches Err(x) && x@ == e)),
{
    if !v.is_object() {
        return Err("api response was not an object".to_owned());
    }
    let id = match get_str_field(v, "id") {
        Ok(s) => s,
        Err(e) => {
            return Err(e);
        },
    };
    let f = match v.get("files") {
        Some(f) => f,
        None => {
            return Err(missing_key_err("files"));
        },
    };
    let files = match f.as_array() {
        Some(files) => files,
        None => {
            return Err(not_array_err("files"));
        },
    };
    if !all_objects_exec(files) {
        return Err(
            "api response contained key `files` but an element was not an object".to_owned(),
        );
    }
    if files.len() == 0 {
        return Err("api response contained key `files` but it was empty".to_owned());
    }
    let file = &files[0];
    proof {
        assert(files@[0] == files@.first());
    }
    let url = match get_str_field(file, "url") {
        Ok(s) => s,
        Err(e) => {
            return Err(e);
        },
    };
    let file_name = match get_str_field(file, "filename") {
        Ok(s) => s,
        Err(e) => {
            return Err(e);
        },
    };
    let h = match file.get("hashes") {
        Some(h) => h,
        None => {
            return Err(missing_key_err("hashes"));
        },
    };
    if !h.is_object() {
        return Err("api response contained key `hashes` but was not an object".to_owned());
    }
    let sh = match h.get("sha512") {
        Some(sh) => sh,
        None => {
            return Err("in `hashes` api response did not contain key `sha512`".to_owned());
        },
    };
    let sha512 = match sh.as_str() {
        Some(s) => s.clone(),
        None => {
            return Err(
                "in `hashes` api response contained key `sha512` but was not a string".to_owned(),
            );
        },
    };
    let dv = match v.get("dependencies") {
        Some(dv) => dv,
        None => {
            return Err(missing_key_err("dependencies"));
        },
    };
    let deps = match dv.as_array() {
        Some(deps) => deps,
        None => {
            return Err(not_array_err("dependencies"));
        },
    };
    let dependencies = match collect_deps(deps) {
        Ok(ds) => ds,
        Err(e) => {
            return Err(e);
        },
    };
    let out = VersionInfo { id, url, file_name, sha512, dependencies };
    proof {
        assert(out@ =~~= spec_parse_version(*v)->Ok_0);
    }
    Ok(out)
}

/// Reading one search hit.
pub open spec fn spec_parse_hit(v: JsonValue) -> Result<crate::api::ModResultModel, Seq<char>> {
    match str_field(v, "project_id"@) {
        Err(e) => Err(e),
        Ok(id) => match str_field(v, "slug"@) {
            Err(e) => Err(e),
            Ok(slug) => match str_field(v, "description"@) {
                Err(e) => Err(e),
                Ok(description) => match str_field(v, "author"@) {
                    Err(e) => Err(e),
                    Ok(author) => match json_get(v, "categories"@) {
                        None => Err(missing_key_msg("categories"@)),
                        Some(c) => match as_arr_of(c) {
                            None => Err(not_array_msg("categories"@)),
                            Some(items) => match str_items(
                                items,
                                elem_not_string_msg("categories"@),
                            ) {
                                Err(e) => Err(e),
                                Ok(tags) => match json_get(v, "downloads"@) {
                                    None => Err(missing_key_msg("downloads"@)),
                                    Some(dl) => match as_u64_of(dl) {
                                        None => Err(not_integer_msg("downloads"@)),
                                        Some(n) => if n > usize::MAX as u64 {
                                            Err(not_integer_msg("downloads"@))
                                        } else {
                                            Ok(
                                                crate::api::ModResultModel {
                                                    id,
                                                    slug,
                                                    description,
                                                    author,
                                                    downloads: n as usize,
                                                    tags,
                                                },
                                            )
                                        },
                                    },
                                },
                            },
                        },
                    },
                },
            },
        },
    }
}

/// "api response contained key `<key>` but was not an integer"
pub open spec fn not_integer_msg(key: Seq<char>) -> Seq<char> {
    "api response contained key `"@ + key + "` but was not an integer"@
}

fn not_integer_err(key: &str) -> (r: String)
    ensures
        r@ == not_integer_msg(key@),
{
    let mut s = "api response contained key `".to_owned();
    s.append(key);
    s.append("` but was not an integer");
    s
}

/// Reading the hit list of a search response, in order.
pub open spec fn spec_parse_hit_list(items: Seq<JsonValue>) -> Result<
    Seq<crate::api::ModResultModel>,
    Seq<char>,
>
    decreases items.len(),
{
    if items.len() == 0 {
        Ok(Seq::empty())
    } else {
        match spec_parse_hit(items.first()) {
            Err(e) => Err(e),
            Ok(m) => match spec_parse_hit_list(items.drop_first()) {
                Err(e) => Err(e),
                Ok(rest) => Ok(seq![m] + rest),
            },
        }
    }
}

/// Prepend a prefix to the success value of a hit-list result.
pub open spec fn hits_with_prefix(
    prefix: Seq<crate::api::ModResultModel>,
    r: Result<Seq<crate::api::ModResultModel>, Seq<char>>,
) -> Result<Seq<crate::api::ModResultModel>, Seq<char>> {
    match r {
        Ok(rest) => Ok(prefix + rest),
        Err(e) => Err(e),
    }
}

/// Reading a whole search response.
pub open spec fn spec_parse_search(v: JsonValue) -> Result<
    Seq<crate::api::ModResultModel>,
    Seq<char>,
> {
    match json_get(v, "hits"@) {
        None => Err(missing_key_msg("hits"@)),
        Some(h) => match as_arr_of(h) {
            None => Err(not_array_msg("hits"@)),
            Some(items) => spec_parse_hit_list(items),
        },
    }
}

/// Read one search hit.
fn parse_hit(v: &JsonValue) -> (r: Result<crate::api::ModResult, String>)
    ensures
        (spec_parse_hit(*v) matches Ok(m) ==> (r matches Ok(p) && p@ == m)),
        (spec_parse_hit(*v) matches Err(e) ==> (r matches Err(x) && x@ == e)),
{
    let id = match get_str_field(v, "project_id") {
        Ok(s) => s,
        Err(e) => {
            return Err(e);
        },
    };
    let slug = match get_str_field(v, "slug") {
        Ok(s) => s,
        Err(e) => {
            return Err(e);
        },
    };
    let description = match get_str_field(v, "description") {
        Ok(s) => s,
        Err(e) => {
            return Err(e);
        },
    };
    let author = match get_str_field(v, "author") {
        Ok(s) => s,
        Err(e) => {
            return Err(e);
        },
    };
    let c = match v.get("categories") {
        Some(c) => c,
        None => {
            return Err(missing_key_err("categories"));
        },
    };
    let items = match c.as_array() {
        Some(items) => items,
        None => {
            return Err(not_array_err("categories"));
        },
    };
    let err = elem_not_string_err("categories");
    let tags = match collect_str_items(items, err.as_str()) {
        Ok(t) => t,
        Err(e) => {
            return Err(e);
        },
    };
    let dl = match v.get("downloads") {
        Some(dl) => dl,
        None => {
            return Err(missing_key_err("downloads"));
        },
    };
    let n = match dl.as_u64() {
        Some(n) => n,
        None => {
            return Err(not_integer_err("downloads"));
        },
    };
    if n > usize::MAX as u64 {
        return Err(not_integer_err("downloads"));
    }
    let out = crate::api::ModResult {
        id,
        slug,
        description,
        author,
        downloads: n as usize,
        tags,
    };
    proof {
        assert(out@ =~~= spec_parse_hit(*v)->Ok_0);
    }
    Ok(out)
}

/// Read a search response into its hits, in order.
pub fn parse_search_hits(v: &JsonValue) -> (r: Result<Vec<crate::api::ModResult>, String>)
    ensures
        (spec_parse_search(*v) matches Ok(ms) ==> (r matches Ok(x) && x.deep_view() == ms)),
        (spec_parse_search(*v) matches Err(e) ==> (r matches Err(x) && x@ == e)),
{
    let h = match v.get("hits") {
        Some(h) => h,
        None => {
            return Err(missing_key_err("hits"));
        },
    };
    let items = match h.as_array() {
        Some(items) => items,
        None => {
            return Err(not_array_err("hits"));
        },
    };
    let len = items.len();
    let mut out: Vec<crate::api::ModResult> = Vec::new();
    let mut i: usize = 0;
    proof {
        assert(items@.skip(0) =~= items@);
        if spec_parse_hit_list(items@) is Ok {
            assert(out.deep_view() + spec_parse_hit_list(items@)->Ok_0 =~= spec_parse_hit_list(
                items@,
            )->Ok_0);
        }
    }
    while i < len
        invariant
            len == items@.len(),
            i <= len,
            spec_parse_search(*v) == spec_parse_hit_list(items@),
            spec_parse_hit_list(items@) == hits_with_prefix(
                out.deep_view(),
                spec_parse_hit_list(items@.skip(i as int)),
            ),
        decreases len - i,
    {
        proof {
            assert(items@.skip(i as int).first() == items@[i as int]);
            assert(items@.skip(i as int).drop_first() =~= items@.skip(i + 1));
        }
        match parse_hit(&items[i]) {
            Err(e) => {
                return Err(e);
            },
            Ok(m) => {
                let ghost pre = out.deep_view();
                out.push(m);
                proof {
                    assert(out.deep_view() =~= pre.push(out@.last().deep_view()));
                    if spec_parse_hit_list(items@.skip(i + 1)) is Ok {
                        let rest = spec_parse_hit_list(items@.skip(i + 1))->Ok_0;
                        assert(pre + (seq![out@.last().deep_view()] + rest) =~= pre.push(
                            out@.last().deep_view(),
                        ) + rest);
                    }
                }
            },
        }
        i = i + 1;
    }
    proof {
        assert(items@.skip(len as int) =~= Seq::<JsonValue>::empty());
        if spec_parse_hit_list(items@) is Ok {
            assert(out.deep_view() + Seq::<crate::api::ModResultModel>::empty() =~= out.deep_view());
        }
    }
    Ok(out)
}

/// The configured Modrinth driver: the mod loader, the acceptable game
/// versions, and the search result limit rendered for the query string.
#[derive(Debug)]
pub struct ModrinthDriver {
    pub loader: String,
    pub versions: Vec<String>,
    pub limit: String,
}

/// The mathematical content of a configured driver.
#[verifier::ext_equal]
pub ghost struct ModrinthDriverModel {
    pub loader: Seq<char>,
    pub versions: Seq<Seq<char>>,
    pub limit: Seq<char>,
}

impl View for ModrinthDriver {
    type V = ModrinthDriverModel;

    open spec fn view(&self) -> ModrinthDriverModel {
        ModrinthDriverModel {
            loader: self.loader@,
            versions: self.versions.deep_view(),
            limit: self.limit@,
        }
    }
}

/// Read the version strings of the `versions` entry; a non-string
/// element is a configuration error.
pub open spec fn cfg_str_items(items: Seq<ConfigValue>) -> Result<Seq<Seq<char>>, Seq<char>>
    decreases items.len(),
{
    if items.len() == 0 {
        Ok(Seq::empty())
    } else {
        match cfg_as_str(items.first()) {
            None => Err("config parameter `versions` contained a non-string"@),
            Some(s) => match cfg_str_items(items.drop_first()) {
                Ok(rest) => Ok(seq![s] + rest),
                Err(e) => Err(e),
            },
        }
    }
}

/// Reading the `[modrinth]` sub-table of a manifest: `loader` (string),
/// `versions` (array of strings) and `limit` (integer) are all required.
pub open spec fn spec_driver_of(cfg: Seq<(String, ConfigValue)>) -> Result<
    ModrinthDriverModel,
    Seq<char>,
> {
    match cfg_lookup(cfg, "modrinth"@) {
        None => Err("missing config table `modrinth`"@),
        Some(t) => match cfg_as_table(t) {
            None => Err("config table `modrinth` is not a table"@),
            Some(entries) => match cfg_lookup(entries, "loader"@) {
                None => Err("missing config parameter `loader`"@),
                Some(lv) => match cfg_as_str(lv) {
                    None => Err("config parameter `loader` present but not string"@),
                    Some(loader) => match cfg_lookup(entries, "versions"@) {
                        None => Err("missing config parameter `versions`"@),
                        Some(vv) => match cfg_as_arr(vv) {
                            None => Err("config parameter `versions` present but not array"@),
                            Some(items) => match cfg_str_items(items) {
                                Err(e) => Err(e),
                                Ok(versions) => match cfg_lookup(entries, "limit"@) {
                                    None => Err("missing config parameter `limit`"@),
                                    Some(lim) => match cfg_as_int(lim) {
                                        None => Err(
                                            "config parameter `limit` present but not integer"@,
                                        ),
                                        Some(n) => Ok(
                                            ModrinthDriverModel {
                                                loader,
                                                versions,
                                                limit: dec_rep_signed(n as int),
                                            },
                                        ),
                                    },
                                },
                            },
                        },
                    },
                },
            },
        },
    }
}

/// Prepend a prefix to the success value of a version-list result.
pub open spec fn cfg_with_prefix(prefix: Seq<Seq<char>>, r: Result<Seq<Seq<char>>, Seq<char>>)
    -> Result<Seq<Seq<char>>, Seq<char>> {
    match r {
        Ok(rest) => Ok(prefix + rest),
        Err(e) => Err(e),
    }
}

fn collect_cfg_str_items(items: &Vec<ConfigValue>) -> (r: Result<Vec<String>, String>)
    ensures
        (cfg_str_items(items@) matches Ok(ss) ==> (r matches Ok(x) && x.deep_view() == ss)),
        (cfg_str_items(items@) matches Err(e) ==> (r matches Err(x) && x@ == e)),
{
    let len = items.len();
    let mut out: Vec<String> = Vec::new();
    let mut i: usize = 0;
    proof {
        assert(items@.skip(0) =~= items@);
        if cfg_str_items(items@) is Ok {
            assert(out.deep_view() + cfg_str_items(items@)->Ok_0 =~= cfg_str_items(items@)->Ok_0);
        }
    }
    while i < len
        invariant
            len == items@.len(),
            i <= len,
            cfg_str_items(items@) == cfg_with_prefix(
                out.deep_view(),
                cfg_str_items(items@.skip(i as int)),
            ),
        decreases len - i,
    {
        proof {
            assert(items@.skip(i as int).first() == items@[i as int]);
            assert(items@.skip(i as int).drop_first() =~= items@.skip(i + 1));
        }
        match items[i].as_str() {
            None => {
                return Err("config parameter `versions` contained a non-string".to_owned());
            },
            Some(s) => {
                let ghost pre = out.deep_view();
                out.push(s.clone());
                proof {
                    assert(out.deep_view() =~= pre.push(s@));
                    if cfg_str_items(items@.skip(i + 1)) is Ok {
                        let rest = cfg_str_items(items@.skip(i + 1))->Ok_0;
                        assert(pre + (seq![s@] + rest) =~= pre.push(s@) + rest);
                    }
                }
            },
        }
        i = i + 1;
    }
    proof {
        assert(items@.skip(len as int) =~= Seq::<ConfigValue>::empty());
        if cfg_str_items(items@) is Ok {
            assert(out.deep_view() + Seq::<Seq<char>>::empty() =~= out.deep_view());
        }
    }
    Ok(out)
}

/// The facet expression of a configured driver:
/// `[["categories:<loader>","versions:<v>",...]]`, one quoted entry per
/// game version.
pub open spec fn facets_versions(vs: Seq<Seq<char>>) -> Seq<char>
    decreases vs.len(),
{
    if vs.len() == 0 {
        Seq::empty()
    } else {
        facets_versions(vs.drop_last()) + ",\"versions:"@ + vs.last() + "\""@
    }
}

/// The full facet expression.
pub open spec fn facets_of(m: ModrinthDriverModel) -> Seq<char> {
    "[[\"categories:"@ + m.loader + "\""@ + facets_versions(m.versions) + "]]"@
}

/// The comma-joined quoted game versions, `"v1","v2"`.
pub open spec fn quoted_versions(vs: Seq<Seq<char>>) -> Seq<char>
    decreases vs.len(),
{
    if vs.len() == 0 {
        Seq::empty()
    } else if vs.len() == 1 {
        "\""@ + vs.last() + "\""@
    } else {
        quoted_versions(vs.drop_last()) + ",\""@ + vs.last() + "\""@
    }
}

impl ModrinthDriver {
    /// Configure the driver from the manifest's driver tables.
    pub fn new(cfg: &Vec<(String, ConfigValue)>) -> (r: Result<ModrinthDriver, String>)
        ensures
            (spec_driver_of(cfg@) matches Ok(m) ==> (r matches Ok(d) && d@ == m)),
            (spec_driver_of(cfg@) matches Err(e) ==> (r matches Err(x) && x@ == e)),
    {
        let t = match cfg_get(cfg, "modrinth") {
            Some(t) => t,
            None => {
                return Err("missing config table `modrinth`".to_owned());
            },
        };
        let entries = match t.as_table() {
            Some(entries) => entries,
            None => {
                return Err("config table `modrinth` is not a table".to_owned());
            },
        };
        let lv = match cfg_get(entries, "loader") {
            Some(lv) => lv,
            None => {
                return Err("missing config parameter `loader`".to_owned());
            },
        };
        let loader = match lv.as_str() {
            Some(s) => s.clone(),
            None => {
                return Err("config parameter `loader` present but not string".to_owned());
            },
        };
        let vv = match cfg_get(entries, "versions") {
            Some(vv) => vv,
            None => {
                return Err("missing config parameter `versions`".to_owned());
            },
        };
        let items = match vv.as_array() {
            Some(items) => items,
            None => {
                return Err("config parameter `versions` present but not array".to_owned());
            },
        };
        let versions = match collect_cfg_str_items(items) {
            Ok(vs) => vs,
            Err(e) => {
                return Err(e);
            },
        };
        let lim = match cfg_get(entries, "limit") {
            Some(lim) => lim,
            None => {
                return Err("missing config parameter `limit`".to_owned());
            },
        };
        let n = match lim.as_integer() {
            Some(n) => n,
            None => {
                return Err("config parameter `limit` present but not integer".to_owned());
            },
        };
        let d = ModrinthDriver { loader, versions, limit: i64_to_string(n) };
        proof {
            assert(d@ =~~= spec_driver_of(cfg@)->Ok_0);
        }
        Ok(d)
    }

    /// The facet expression restricting a search to the configured
    /// loader and game versions.
    pub fn get_facets(&self) -> (r: String)
        ensures
            r@ == facets_of(self@),
    {
        let mut versions_str = String::new();
        let len = self.versions.len();
        let mut i: usize = 0;
        while i < len
            invariant
                len == self.versions@.len(),
                i <= len,
                versions_str@ =~= facets_versions(self.versions.deep_view().take(i as int)),
            decreases len - i,
        {
            let ghost pre = self.versions.deep_view().take(i as int);
            let ghost post = self.versions.deep_view().take(i + 1);
            proof {
                assert(post.drop_last() =~= pre);
                assert(post.last() == self.versions@[i as int]@);
            }
            versions_str.append(",\"versions:");
            versions_str.append(self.versions[i].as_str());
            versions_str.append("\"");
            i = i + 1;
        }
        proof {
            assert(self.versions.deep_view().take(len as int) =~= self.versions.deep_view());
        }
        let mut facets = String::new();
        facets.append("[[\"categories:");
        facets.append(self.loader.as_str());
        facets.append("\"");
        facets.append(versions_str.as_str());
        facets.append("]]");
        facets
    }

    /// The comma-joined quoted game versions for a version query.
    fn quoted_versions_exec(&self) -> (r: String)
        ensures
            r@ == quoted_versions(self@.versions),
    {
        let mut s = String::new();
        let len = self.versions.len();
        let mut i: usize = 0;
        while i < len
            invariant
                len == self.versions@.len(),
                i <= len,
                s@ =~= quoted_versions(self.versions.deep_view().take(i as int)),
            decreases len - i,
        {
            let ghost pre = self.versions.deep_view().take(i as int);
            let ghost post = self.versions.deep_view().take(i + 1);
            proof {
                assert(post.drop_last() =~= pre);
                assert(post.last() == self.versions@[i as int]@);
            }
            if i > 0 {
                s.append(",\"");
            } else {
                s.append("\"");
            }
            s.append(self.versions[i].as_str());
            s.append("\"");
            i = i + 1;
        }
        proof {
            assert(self.versions.deep_view().take(len as int) =~= self.versions.deep_view());
        }
        s
    }

    /// The query for a project's description.
    pub fn project_query(&self, pkg_id: &str) -> (r: HTTPSQuery)
        ensures
            r@.hostname == "api.modrinth.com"@,
            r@.endpoint == "v2/project/"@ + pkg_id@,
            r@.parameters == Seq::<(Seq<char>, Seq<char>)>::empty(),
    {
        let mut endpoint = "v2/project/".to_owned();
        endpoint.append(pkg_id);
        HTTPSQuery::new("api.modrinth.com", endpoint.as_str())
    }

    /// The query for a project's versions, or for one specific version;
    /// both carry the configured loader and game versions.
    pub fn version_query(&self, pkg_id: &str, ver_id: Option<&str>) -> (r: Result<
        HTTPSQuery,
        String,
    >)
        ensures
            r matches Ok(q) && {
                &&& q@.hostname == "api.modrinth.com"@
                &&& (ver_id matches Some(v) ==> q@.endpoint == "v2/project/"@ + pkg_id@
                    + "/version/"@ + v@)
                &&& (ver_id is None ==> q@.endpoint == "v2/project/"@ + pkg_id@ + "/version"@)
                &&& q@.parameters =~= seq![
                    ("loaders"@, "[\""@ + self@.loader + "\"]"@),
                    ("game_versions"@, "["@ + quoted_versions(self@.versions) + "]"@),
                ]
            },
    {
        let mut endpoint = "v2/project/".to_owned();
        endpoint.append(pkg_id);
        match ver_id {
            Some(v) => {
                endpoint.append("/version/");
                endpoint.append(v);
            },
            None => {
                endpoint.append("/version");
            },
        }
        let q = HTTPSQuery::new("api.modrinth.com", endpoint.as_str());
        let mut loaders = "[\"".to_owned();
        loaders.append(self.loader.as_str());
        loaders.append("\"]");
        let q = match q.add_parameter("loaders", loaders.as_str()) {
            Ok(q) => q,
            Err(e) => {
                return Err(e);
            },
        };
        let mut game_versions = "[".to_owned();
        let quoted = self.quoted_versions_exec();
        game_versions.append(quoted.as_str());
        game_versions.append("]");
        let q = match q.add_parameter("game_versions", game_versions.as_str()) {
            Ok(q) => q,
            Err(e) => {
                return Err(e);
            },
        };
        proof {
            reveal_strlit("loaders");
            reveal_strlit("game_versions");
            assert("loaders"@.len() == 7);
            assert("game_versions"@.len() == 13);
            assert("loaders"@ != "game_versions"@);
            let ghost ps1 = seq![("loaders"@, loaders@)];
            assert(ps1.drop_first() =~= Seq::<(Seq<char>, Seq<char>)>::empty());
            assert(spec_set_param(ps1.drop_first(), "game_versions"@, game_versions@) =~= seq![
                ("game_versions"@, game_versions@),
            ]);
            assert(q@.parameters =~= seq![("loaders"@, loaders@)] + seq![
                ("game_versions"@, game_versions@),
            ]);
            assert(q@.parameters =~= seq![
                ("loaders"@, loaders@),
                ("game_versions"@, game_versions@),
            ]);
        }
        Ok(q)
    }

    /// The query for a facet-filtered search.
    pub fn search_query(&self, query: &str) -> (r: Result<HTTPSQuery, String>)
        ensures
            r matches Ok(q) && {
                &&& q@.hostname == "api.modrinth.com"@
                &&& q@.endpoint == "v2/search"@
                &&& q@.parameters =~= seq![
                    ("query"@, query@),
                    ("facets"@, facets_of(self@)),
                    ("limit"@, self@.limit),
                ]
            },
    {
        let q = HTTPSQuery::new("api.modrinth.com", "v2/search");
        let q = match q.add_parameter("query", query) {
            Ok(q) => q,
            Err(e) => {
                return Err(e);
            },
        };
        let facets = self.get_facets();
        let q = match q.add_parameter("facets", facets.as_str()) {
            Ok(q) => q,
            Err(e) => {
                return Err(e);
            },
        };
        let q = match q.add_parameter("limit", self.limit.as_str()) {
            Ok(q) => q,
            Err(e) => {
                return Err(e);
            },
        };
        proof {
            reveal_strlit("query");
            reveal_strlit("facets");
            reveal_strlit("limit");
            assert("query"@.len() == 5);
            assert("facets"@.len() == 6);
            assert("limit"@.len() == 5);
            assert("query"@[0] == 'q' && "limit"@[0] == 'l');
            assert("query"@ != "facets"@ && "query"@ != "limit"@ && "facets"@ != "limit"@);
            let ghost p1 = seq![("query"@, query@)];
            assert(p1.drop_first() =~= Seq::<(Seq<char>, Seq<char>)>::empty());
            assert(spec_set_param(p1.drop_first(), "facets"@, facets@) =~= seq![
                ("facets"@, facets@),
            ]);
            let ghost p2 = seq![("query"@, query@), ("facets"@, facets@)];
            assert(p1 + seq![("facets"@, facets@)] =~= p2);
            let ghost pf = seq![("facets"@, facets@)];
            assert(p2.drop_first() =~= pf);
            assert(pf.drop_first() =~= Seq::<(Seq<char>, Seq<char>)>::empty());
            assert(spec_set_param(pf.drop_first(), "limit"@, self@.limit) =~= seq![
                ("limit"@, self@.limit),
            ]);
            assert(spec_set_param(pf, "limit"@, self@.limit) =~= seq![
                ("facets"@, facets@),
                ("limit"@, self@.limit),
            ]);
            assert(q@.parameters =~= seq![("query"@, query@)] + seq![
                ("facets"@, facets@),
                ("limit"@, self@.limit),
            ]);
            assert(q@.parameters =~= seq![
                ("query"@, query@),
                ("facets"@, facets@),
                ("limit"@, self@.limit),
            ]);
        }
        Ok(q)
    }
}

/// The index of the first entry recording this package id, if the
/// package was already seen during an installation.
pub fn find_seen(seen: &Vec<(String, Option<String>)>, pkg_id: &str) -> (r: Option<usize>)
    ensures
        (r matches Some(i) ==> i < seen@.len() && seen@[i as int].0@ == pkg_id@ && forall|j: int|
            0 <= j < i ==> (#[trigger] seen@[j]).0@ != pkg_id@),
        (r is None ==> forall|j: int| 0 <= j < seen@.len() ==> (#[trigger] seen@[j]).0@ != pkg_id@),
{
    let len = seen.len();
    let mut i: usize = 0;
    while i < len
        invariant
            len == seen@.len(),
            i <= len,
            forall|j: int| 0 <= j < i ==> (#[trigger] seen@[j]).0@ != pkg_id@,
        decreases len - i,
    {
        if str_eq(seen[i].0.as_str(), pkg_id) {
            return Some(i);
        }
        i = i + 1;
    }
    None
}

/// The names of a list of derivations, in order.
pub open spec fn names_of(s: Seq<Derivation>) -> Seq<Seq<char>> {
    s.map_values(|d: Derivation| d@.name)
}

/// The derivation a resolved version gives rise to: addressed by the
/// project slug, fetching the version's first file, carrying the file's
/// SHA-512 as preset hash, depending on every derivation resolved for
/// its required dependencies, and tagged with the project categories.
pub fn derivation_for_version(
    slug: &str,
    categories: Vec<String>,
    info: &VersionInfo,
    deps: &Vec<Derivation>,
) -> (r: Derivation)
    ensures
        r@ == (DerivationModel {
            url: info@.url,
            name: slug@,
            file_name: info@.file_name,
            extract: false,
            extract_target: None,
            hash: Some(info@.sha512),
            depends: names_of(deps@),
            tags: categories.deep_view(),
            backing_file: Seq::empty(),
        }),
{
    let mut depends: Vec<String> = Vec::new();
    let len = deps.len();
    let mut i: usize = 0;
    while i < len
        invariant
            len == deps@.len(),
            i <= len,
            depends.deep_view() =~= names_of(deps@).take(i as int),
        decreases len - i,
    {
        let ghost pre = depends.deep_view();
        depends.push(deps[i].name.clone());
        proof {
            assert(depends.deep_view() =~= pre.push(deps@[i as int]@.name));
            assert(names_of(deps@)[i as int] == deps@[i as int]@.name);
            assert(names_of(deps@).take(i + 1) =~= names_of(deps@).take(i as int).push(
                names_of(deps@)[i as int],
            ));
        }
        i = i + 1;
    }
    proof {
        assert(names_of(deps@).take(len as int) =~= names_of(deps@));
    }
    let r = Derivation::new(
        info.url.as_str(),
        slug,
        info.file_name.as_str(),
        false,
        None,
        Some(info.sha512.clone()),
        depends,
        categories,
        "",
    );
    proof {
        reveal_strlit("");
        assert(r@ =~~= (DerivationModel {
            url: info@.url,
            name: slug@,
            file_name: info@.file_name,
            extract: false,
            extract_target: None,
            hash: Some(info@.sha512),
            depends: names_of(deps@),
            tags: r@.tags,
            backing_file: Seq::empty(),
        }));
    }
    r
}

} // verus!
