//! Where the library and the thumbnails are kept. Originals never come here: they
//! stay where they are.
use vstd::prelude::*;

use crate::filepath::{join_path, path_in};
use crate::text::opt_view;

verus! {

/// The kinds of system that have their own place for the data of a program.
#[derive(Debug, Clone, Copy, PartialEq, Eq, Structural)]
pub enum Platform {
    Windows,
    MacOs,
    Other,
}

/// The variables of the environment that name directories.
#[derive(Debug, Clone)]
pub struct BaseDirs {
    pub appdata: Option<String>,
    pub home: Option<String>,
    pub xdg_data_home: Option<String>,
}

/// Why there is no place for the data.
#[derive(Debug, Clone, Copy, PartialEq, Eq, Structural)]
pub enum NoDataDir {
    NoAppData,
    NoHome,
    NoneAtAll,
}

impl NoDataDir {
    pub fn message(self) -> (r: &'static str)
        ensures
            r@ == match self {
                NoDataDir::NoAppData => "找不到 APPDATA 环境变量"@,
                NoDataDir::NoHome => "找不到 HOME 环境变量"@,
                NoDataDir::NoneAtAll => "找不到可用的数据目录"@,
            },
    {
        match self {
            NoDataDir::NoAppData => "找不到 APPDATA 环境变量",
            NoDataDir::NoHome => "找不到 HOME 环境变量",
            NoDataDir::NoneAtAll => "找不到可用的数据目录",
        }
    }
}

/// The directory for the data of programs.
pub open spec fn base_dir(
    p: Platform,
    appdata: Option<Seq<char>>,
    home: Option<Seq<char>>,
    xdg: Option<Seq<char>>,
) -> Result<Seq<char>, NoDataDir> {
    match p {
        Platform::Windows => match appdata {
            Some(d) => Ok(d),
            None => Err(NoDataDir::NoAppData),
        },
        Platform::MacOs => match home {
            Some(h) => Ok(path_in(path_in(h, "Library"@), "Application Support"@)),
            None => Err(NoDataDir::NoHome),
        },
        Platform::Other => match (xdg, home) {
            (Some(d), _) => Ok(d),
            (None, Some(h)) => Ok(path_in(path_in(h, ".local"@), "share"@)),
            (None, None) => Err(NoDataDir::NoneAtAll),
        },
    }
}

/// The directory for the data of this program.
pub fn data_dir(p: Platform, dirs: &BaseDirs) -> (r: Result<String, NoDataDir>)
    ensures
        match base_dir(
            p,
            opt_view(dirs.appdata),
            opt_view(dirs.home),
            opt_view(dirs.xdg_data_home),
        ) {
            Ok(b) => r is Ok && r->Ok_0@ == path_in(b, "SP"@),
            Err(e) => r == Err::<String, NoDataDir>(e),
        },
{
    let base = match p {
        Platform::Windows => match &dirs.appdata {
            Some(d) => d.clone(),
            None => return Err(NoDataDir::NoAppData),
        },
        Platform::MacOs => match &dirs.home {
            Some(h) => {
                let lib = join_path(h.as_str(), "Library");
                join_path(lib.as_str(), "Application Support")
            },
            None => return Err(NoDataDir::NoHome),
        },
        Platform::Other => match (&dirs.xdg_data_home, &dirs.home) {
            (Some(d), _) => d.clone(),
            (None, Some(h)) => {
                let local = join_path(h.as_str(), ".local");
                join_path(local.as_str(), "share")
            },
            (None, None) => return Err(NoDataDir::NoneAtAll),
        },
    };
    Ok(join_path(base.as_str(), "SP"))
}

/// The library, in the directory for the data.
pub fn db_path(data_dir: &str) -> (r: String)
    ensures
        r@ == path_in(data_dir@, "library.db"@),
{
    join_path(data_dir, "library.db")
}

/// The thumbnails, in the directory for the data.
pub fn thumbs_dir(data_dir: &str) -> (r: String)
    ensures
        r@ == path_in(data_dir@, "thumbs"@),
{
    join_path(data_dir, "thumbs")
}

} // verus!
