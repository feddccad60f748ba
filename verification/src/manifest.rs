//! The project manifest: what the engine consumes of the pack-level
//! configuration, and the decisions that locate it on disk.

use vstd::prelude::*;

verus! {

/// One configuration value, as a manifest sub-table holds it. Values the
/// engine never reads (dates, floats) are carried opaquely.
#[derive(Debug)]
pub enum ConfigValue {
    Str(String),
    Int(i64),
    Bool(bool),
    Arr(Vec<ConfigValue>),
    Table(Vec<(String, ConfigValue)>),
    Other,
}

/// The first value under `key`, if any.
pub open spec fn cfg_lookup(entries: Seq<(String, ConfigValue)>, key: Seq<char>) -> Option<
    ConfigValue,
>
    decreases entries.len(),
{
    if entries.len() == 0 {
        None
    } else if entries.first().0@ == key {
        Some(entries.first().1)
    } else {
        cfg_lookup(entries.drop_first(), key)
    }
}

/// The characters of a string value.
pub open spec fn cfg_as_str(v: ConfigValue) -> Option<Seq<char>> {
    match v {
        ConfigValue::Str(s) => Some(s@),
        _ => None,
    }
}

/// The elements of an array value.
pub open spec fn cfg_as_arr(v: ConfigValue) -> Option<Seq<ConfigValue>> {
    match v {
        ConfigValue::Arr(items) => Some(items@),
        _ => None,
    }
}

/// The value of an integer entry.
pub open spec fn cfg_as_int(v: ConfigValue) -> Option<i64> {
    match v {
        ConfigValue::Int(n) => Some(n),
        _ => None,
    }
}

/// The entries of a sub-table value.
pub open spec fn cfg_as_table(v: ConfigValue) -> Option<Seq<(String, ConfigValue)>> {
    match v {
        ConfigValue::Table(entries) => Some(entries@),
        _ => None,
    }
}

/// Look a key up in a configuration table.
pub fn cfg_get<'a>(entries: &'a Vec<(String, ConfigValue)>, key: &str) -> (r: Option<
    &'a ConfigValue,
>)
    ensures
        match r {
            Some(v) => cfg_lookup(entries@, key@) == Some(*v),
            None => cfg_lookup(entries@, key@) is None,
        },
{
    let len = entries.len();
    let mut i: usize = 0;
    proof {
        assert(entries@.skip(0) =~= entries@);
    }
    while i < len
        invariant
            len == entries@.len(),
            i <= len,
            cfg_lookup(entries@, key@) == cfg_lookup(entries@.skip(i as int), key@),
        decreases len - i,
    {
        proof {
            assert(entries@.skip(i as int).first() == entries@[i as int]);
            assert(entries@.skip(i as int).drop_first() =~= entries@.skip(i + 1));
        }
        if crate::text::str_eq(entries[i].0.as_str(), key) {
            proof {
                assert(cfg_lookup(entries@.skip(i as int), key@) == Some(entries@[i as int].1));
            }
            return Some(&entries[i].1);
        }
        i = i + 1;
    }
    proof {
        assert(entries@.skip(len as int) =~= Seq::<(String, ConfigValue)>::empty());
    }
    None
}

impl ConfigValue {
    /// The string inside, when this is a string value.
    pub fn as_str<'a>(&'a self) -> (r: Option<&'a String>)
        ensures
            match r {
                Some(s) => cfg_as_str(*self) == Some(s@),
                None => cfg_as_str(*self) is None,
            },
    {
        match self {
            ConfigValue::Str(s) => Some(s),
            _ => None,
        }
    }

    /// The elements inside, when this is an array value.
    pub fn as_array<'a>(&'a self) -> (r: Option<&'a Vec<ConfigValue>>)
        ensures
            match r {
                Some(items) => cfg_as_arr(*self) == Some(items@),
                None => cfg_as_arr(*self) is None,
            },
    {
        match self {
            ConfigValue::Arr(items) => Some(items),
            _ => None,
        }
    }

    /// The integer inside, when this is one.
    pub fn as_integer(&self) -> (r: Option<i64>)
        ensures
            r == cfg_as_int(*self),
    {
        match self {
            ConfigValue::Int(n) => Some(*n),
            _ => None,
        }
    }

    /// The entries inside, when this is a sub-table.
    pub fn as_table<'a>(&'a self) -> (r: Option<&'a Vec<(String, ConfigValue)>>)
        ensures
            match r {
                Some(entries) => cfg_as_table(*self) == Some(entries@),
                None => cfg_as_table(*self) is None,
            },
    {
        match self {
            ConfigValue::Table(entries) => Some(entries),
            _ => None,
        }
    }
}

/// The `[main]` table of a pack manifest.
#[derive(Debug)]
pub struct ManifestMain {
    pub name: String,
    pub pack_version: String,
    pub derives: Option<String>,
    pub api: Option<String>,
    pub enable_all: bool,
    pub target: Option<String>,
}

/// The mathematical content of the `[main]` table.
#[verifier::ext_equal]
pub ghost struct ManifestMainModel {
    pub name: Seq<char>,
    pub pack_version: Seq<char>,
    pub derives: Option<Seq<char>>,
    pub api: Option<Seq<char>>,
    pub enable_all: bool,
    pub target: Option<Seq<char>>,
}

impl View for ManifestMain {
    type V = ManifestMainModel;

    open spec fn view(&self) -> ManifestMainModel {
        ManifestMainModel {
            name: self.name@,
            pack_version: self.pack_version@,
            derives: self.derives.deep_view(),
            api: self.api.deep_view(),
            enable_all: self.enable_all,
            target: self.target.deep_view(),
        }
    }
}

/// A loaded pack manifest: the `[main]` table, the optional `[enabled]`
/// table, and every driver-specific sub-table keyed by driver name.
#[derive(Debug)]
pub struct Manifest {
    pub main: ManifestMain,
    pub enabled: Option<Vec<(String, ConfigValue)>>,
    pub api_cfg: Vec<(String, ConfigValue)>,
}

impl Manifest {
    /// A fresh manifest, as `init` writes it: version `0.1`, everything
    /// enabled, no driver tables yet.
    pub fn init(name: &str, derives: Option<String>, api: Option<String>, target: Option<String>)
        -> (r: Manifest)
        ensures
            r.main@ == (ManifestMainModel {
                name: name@,
                pack_version: "0.1"@,
                derives: derives.deep_view(),
                api: api.deep_view(),
                enable_all: true,
                target: target.deep_view(),
            }),
            r.enabled is None,
            r.api_cfg@.len() == 0,
    {
        let r = Manifest {
            main: ManifestMain {
                name: name.to_owned(),
                pack_version: "0.1".to_owned(),
                derives,
                api,
                enable_all: true,
                target,
            },
            enabled: None,
            api_cfg: Vec::new(),
        };
        proof {
            assert(r.main@ =~~= (ManifestMainModel {
                name: name@,
                pack_version: "0.1"@,
                derives: r.main.derives.deep_view(),
                api: r.main.api.deep_view(),
                enable_all: true,
                target: r.main.target.deep_view(),
            }));
        }
        r
    }
}

/// Pick the manifest file to load: an explicit flag wins; otherwise the
/// conventional file in the working directory, provided it exists.
pub fn select_manifest_path(flag: &Option<String>, dir: &str, default_exists: bool) -> (r: Result<
    String,
    String,
>)
    ensures
        flag matches Some(f) ==> (r matches Ok(p) && p@ == f@),
        flag is None && default_exists ==> (r matches Ok(p) && p@ == dir@
            + "/manifest.jade.toml"@),
        flag is None && !default_exists ==> (r matches Err(e) && e@ == "could not locate manifest "@
            + dir@ + "/manifest.jade.toml"@
            + ": try passing the --manifest flag to manually specify pack manifest"@),
{
    match flag {
        Some(f) => Ok(f.clone()),
        None => {
            let mut path = dir.to_owned();
            path.append("/manifest.jade.toml");
            if default_exists {
                Ok(path)
            } else {
                let mut e = "could not locate manifest ".to_owned();
                e.append(path.as_str());
                e.append(": try passing the --manifest flag to manually specify pack manifest");
                Err(e)
            }
        },
    }
}

/// Pick the derives directory: an explicit flag wins, then the manifest's
/// own entry, then the conventional subdirectory when it is present.
pub fn select_derives_dir(
    flag: &Option<String>,
    manifest_derives: &Option<String>,
    dir: &str,
    fallback_is_dir: bool,
) -> (r: Result<String, String>)
    ensures
        flag matches Some(f) ==> (r matches Ok(p) && p@ == f@),
        flag is None ==> (manifest_derives matches Some(m) ==> (r matches Ok(p) && p@ == m@)),
        flag is None && manifest_derives is None && fallback_is_dir ==> (r matches Ok(p) && p@
            == dir@ + "/derives/"@),
        flag is None && manifest_derives is None && !fallback_is_dir ==> r is Err,
{
    match flag {
        Some(f) => Ok(f.clone()),
        None => match manifest_derives {
            Some(m) => Ok(m.clone()),
            None => {
                if fallback_is_dir {
                    let mut path = dir.to_owned();
                    path.append("/derives/");
                    Ok(path)
                } else {
                    Err(
                        "could not find derives: create the ./derives directory in your pack, set derives = \"/path/to/derives\" in the project manifest, or pass the --derives flag".to_owned(),
                    )
                }
            },
        },
    }
}

} // verus!
